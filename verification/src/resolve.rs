//! The version resolver: the full description of one version — asset
//! index coordinates, client jar, main class and the platform-filtered
//! library list — parsed out of the version's details document.
use vstd::prelude::*;

use crate::errors::{JsonField, LauncherError};
use crate::json::{json_doc, parse_document, JsonValue};
use crate::platform::{spec_library_from_json, Library, LibraryParseOutcome, LibraryView};

verus! {

/// The fully described version a resolution call produces.
#[derive(Debug, Clone)]
pub struct VersionData {
    pub version_id: String,
    pub asset_index_download_url: String,
    pub asset_index_id: String,
    pub client_jar_download_url: String,
    pub main_class: String,
    /// Every library that applies to this platform, in catalog order.
    pub libraries: Vec<Library>,
}

pub struct VersionDataView {
    pub version_id: Seq<char>,
    pub asset_index_download_url: Seq<char>,
    pub asset_index_id: Seq<char>,
    pub client_jar_download_url: Seq<char>,
    pub main_class: Seq<char>,
    pub libraries: Seq<LibraryView>,
}

impl View for VersionData {
    type V = VersionDataView;

    open spec fn view(&self) -> VersionDataView {
        VersionDataView {
            version_id: self.version_id@,
            asset_index_download_url: self.asset_index_download_url@,
            asset_index_id: self.asset_index_id@,
            client_jar_download_url: self.client_jar_download_url@,
            main_class: self.main_class@,
            libraries: spec_library_views(self.libraries@),
        }
    }
}

pub open spec fn spec_library_views(libraries: Seq<Library>) -> Seq<LibraryView> {
    libraries.map_values(|l: Library| l@)
}

/// What parsing a whole `libraries` array comes to: the applicable
/// libraries in catalog order, or the first entry's hard failure. Entries
/// whose native artifact does not exist for this host are left out, not
/// errors.
pub enum LibraryListOutcome {
    Parsed(Seq<LibraryView>),
    Missing(JsonField),
    UnsupportedHost,
}

pub open spec fn spec_parse_libraries(items: Seq<JsonValue>, os_name: Seq<char>) -> LibraryListOutcome
    decreases items.len(),
{
    if items.len() == 0 {
        LibraryListOutcome::Parsed(Seq::empty())
    } else {
        match spec_library_from_json(items[0], os_name) {
            LibraryParseOutcome::Missing(f) => LibraryListOutcome::Missing(f),
            LibraryParseOutcome::UnsupportedHost => LibraryListOutcome::UnsupportedHost,
            LibraryParseOutcome::NotApplicable => spec_parse_libraries(items.drop_first(), os_name),
            LibraryParseOutcome::Parsed(lv) => match spec_parse_libraries(
                items.drop_first(),
                os_name,
            ) {
                LibraryListOutcome::Parsed(tail) => LibraryListOutcome::Parsed(seq![lv] + tail),
                LibraryListOutcome::Missing(f) => LibraryListOutcome::Missing(f),
                LibraryListOutcome::UnsupportedHost => LibraryListOutcome::UnsupportedHost,
            },
        }
    }
}

/// What parsing a version's details document comes to.
pub enum VersionDataOutcome {
    Parsed(VersionDataView),
    Missing(JsonField),
    UnsupportedHost,
}

/// The parse of the details document, in the order the resolver consults
/// it: the library list and its entries first, then the version id, the
/// asset index coordinates, the client jar URL, and the main class.
pub open spec fn spec_parse_version_data(doc: JsonValue, os_name: Seq<char>) -> VersionDataOutcome {
    match doc.spec_get("libraries"@) {
        None => VersionDataOutcome::Missing(JsonField::Libraries),
        Some(libraries_field) => match libraries_field.spec_arr() {
            None => VersionDataOutcome::Missing(JsonField::Libraries),
            Some(items) => match spec_parse_libraries(items, os_name) {
                LibraryListOutcome::Missing(f) => VersionDataOutcome::Missing(f),
                LibraryListOutcome::UnsupportedHost => VersionDataOutcome::UnsupportedHost,
                LibraryListOutcome::Parsed(libraries) => match doc.spec_get_str("id"@) {
                    None => VersionDataOutcome::Missing(JsonField::VersionId),
                    Some(version_id) => match spec_asset_index_field(doc, "url"@) {
                        None => VersionDataOutcome::Missing(JsonField::AssetIndexUrl),
                        Some(asset_index_download_url) => match spec_asset_index_field(
                            doc,
                            "id"@,
                        ) {
                            None => VersionDataOutcome::Missing(JsonField::AssetIndexId),
                            Some(asset_index_id) => match spec_client_jar_url(doc) {
                                None => VersionDataOutcome::Missing(JsonField::ClientJarUrl),
                                Some(client_jar_download_url) => match doc.spec_get_str(
                                    "mainClass"@,
                                ) {
                                    None => VersionDataOutcome::Missing(JsonField::MainClass),
                                    Some(main_class) => VersionDataOutcome::Parsed(
                                        VersionDataView {
                                            version_id,
                                            asset_index_download_url,
                                            asset_index_id,
                                            client_jar_download_url,
                                            main_class,
                                            libraries,
                                        },
                                    ),
                                },
                            },
                        },
                    },
                },
            },
        },
    }
}

pub open spec fn spec_asset_index_field(doc: JsonValue, key: Seq<char>) -> Option<Seq<char>> {
    match doc.spec_get("assetIndex"@) {
        Some(asset_index) => asset_index.spec_get_str(key),
        None => None,
    }
}

pub open spec fn spec_client_jar_url(doc: JsonValue) -> Option<Seq<char>> {
    match doc.spec_get("downloads"@) {
        Some(downloads) => match downloads.spec_get("client"@) {
            Some(client) => client.spec_get_str("url"@),
            None => None,
        },
        None => None,
    }
}

proof fn lemma_parse_libraries_step(items: Seq<JsonValue>, os_name: Seq<char>, i: int)
    requires
        0 <= i < items.len(),
    ensures
        spec_parse_libraries(items.skip(i), os_name) == (match spec_library_from_json(
            items[i],
            os_name,
        ) {
            LibraryParseOutcome::Missing(f) => LibraryListOutcome::Missing(f),
            LibraryParseOutcome::UnsupportedHost => LibraryListOutcome::UnsupportedHost,
            LibraryParseOutcome::NotApplicable => spec_parse_libraries(items.skip(i + 1), os_name),
            LibraryParseOutcome::Parsed(lv) => match spec_parse_libraries(
                items.skip(i + 1),
                os_name,
            ) {
                LibraryListOutcome::Parsed(tail) => LibraryListOutcome::Parsed(seq![lv] + tail),
                LibraryListOutcome::Missing(f) => LibraryListOutcome::Missing(f),
                LibraryListOutcome::UnsupportedHost => LibraryListOutcome::UnsupportedHost,
            },
        }),
{
    assert(items.skip(i)[0] == items[i]);
    assert(items.skip(i).drop_first() =~= items.skip(i + 1));
}

fn parse_libraries(items: &Vec<JsonValue>, os_name: &str) -> (r: Result<Vec<Library>, LauncherError>)
    ensures
        match spec_parse_libraries(items@, os_name@) {
            LibraryListOutcome::Parsed(views) => r matches Ok(parsed) && spec_library_views(
                parsed@,
            ) == views,
            LibraryListOutcome::Missing(f) => r matches Err(e) && e == LauncherError::MissingField(
                f,
            ),
            LibraryListOutcome::UnsupportedHost => r matches Err(e) && (e
                matches LauncherError::UnsupportedOs(os) && os@ == os_name@),
        },
{
    let mut parsed: Vec<Library> = Vec::new();
    let n: usize = items.len();
    assert(items@.skip(0) =~= items@);
    assert(spec_library_views(parsed@) =~= Seq::<LibraryView>::empty());
    for i in 0..n
        invariant
            n == items@.len(),
            forall|tail: Seq<LibraryView>|
                spec_parse_libraries(items@.skip(i as int), os_name@)
                    == LibraryListOutcome::Parsed(tail) ==> spec_parse_libraries(items@, os_name@)
                    == LibraryListOutcome::Parsed(spec_library_views(parsed@) + tail),
            (spec_parse_libraries(items@.skip(i as int), os_name@) matches LibraryListOutcome::Missing(f))
                ==> spec_parse_libraries(items@, os_name@) == spec_parse_libraries(
                items@.skip(i as int),
                os_name@,
            ),
            (spec_parse_libraries(items@.skip(i as int), os_name@)
                matches LibraryListOutcome::UnsupportedHost) ==> spec_parse_libraries(
                items@,
                os_name@,
            ) == LibraryListOutcome::UnsupportedHost,
    {
        proof {
            lemma_parse_libraries_step(items@, os_name@, i as int);
        }
        match Library::from_json(&items[i], os_name) {
            Ok(Some(library)) => {
                let ghost old_parsed = parsed@;
                parsed.push(library);
                proof {
                    assert(spec_library_views(parsed@) =~= spec_library_views(old_parsed) + seq![
                        library@,
                    ]);
                    assert(forall|tail: Seq<LibraryView>|
                        spec_library_views(old_parsed) + (seq![library@] + tail)
                            =~= spec_library_views(parsed@) + tail);
                }
            },
            Ok(None) => {
            },
            Err(e) => {
                return Err(e);
            },
        }
    }
    assert(items@.skip(n as int) =~= Seq::<JsonValue>::empty());
    assert(spec_library_views(parsed@) + Seq::<LibraryView>::empty() =~= spec_library_views(
        parsed@,
    ));
    Ok(parsed)
}

/// Parse a version's details document for the host named `os_name`.
pub fn parse_version_data(doc: &JsonValue, os_name: &str) -> (r: Result<VersionData, LauncherError>)
    ensures
        match spec_parse_version_data(*doc, os_name@) {
            VersionDataOutcome::Parsed(vd) => r matches Ok(parsed) && parsed@ == vd,
            VersionDataOutcome::Missing(f) => r matches Err(e) && e == LauncherError::MissingField(
                f,
            ),
            VersionDataOutcome::UnsupportedHost => r matches Err(e) && (e
                matches LauncherError::UnsupportedOs(os) && os@ == os_name@),
        },
{
    let items: &Vec<JsonValue> = match doc.get("libraries") {
        Some(libraries_field) => match libraries_field.as_array() {
            Some(items) => items,
            None => {
                return Err(LauncherError::MissingField(JsonField::Libraries));
            },
        },
        None => {
            return Err(LauncherError::MissingField(JsonField::Libraries));
        },
    };
    let libraries = match parse_libraries(items, os_name) {
        Ok(libraries) => libraries,
        Err(e) => {
            return Err(e);
        },
    };
    let version_id: &String = match doc.get_str("id") {
        Some(version_id) => version_id,
        None => {
            return Err(LauncherError::MissingField(JsonField::VersionId));
        },
    };
    let asset_index: &JsonValue = match doc.get("assetIndex") {
        Some(asset_index) => asset_index,
        None => {
            return Err(LauncherError::MissingField(JsonField::AssetIndexUrl));
        },
    };
    let asset_index_download_url: &String = match asset_index.get_str("url") {
        Some(url) => url,
        None => {
            return Err(LauncherError::MissingField(JsonField::AssetIndexUrl));
        },
    };
    let asset_index_id: &String = match asset_index.get_str("id") {
        Some(id) => id,
        None => {
            return Err(LauncherError::MissingField(JsonField::AssetIndexId));
        },
    };
    let client_jar_download_url: &String = {
        let client: Option<&JsonValue> = match doc.get("downloads") {
            Some(downloads) => downloads.get("client"),
            None => None,
        };
        match client {
            Some(client) => match client.get_str("url") {
                Some(url) => url,
                None => {
                    return Err(LauncherError::MissingField(JsonField::ClientJarUrl));
                },
            },
            None => {
                return Err(LauncherError::MissingField(JsonField::ClientJarUrl));
            },
        }
    };
    let main_class: &String = match doc.get_str("mainClass") {
        Some(main_class) => main_class,
        None => {
            return Err(LauncherError::MissingField(JsonField::MainClass));
        },
    };
    Ok(VersionData {
        version_id: version_id.clone(),
        asset_index_download_url: asset_index_download_url.clone(),
        asset_index_id: asset_index_id.clone(),
        client_jar_download_url: client_jar_download_url.clone(),
        main_class: main_class.clone(),
        libraries: libraries,
    })
}

/// Parse the raw bytes of a version's details response.
pub fn version_data_from_bytes(bytes: &[u8], os_name: &str) -> (r: Result<
    VersionData,
    LauncherError,
>)
    ensures
        match json_doc(bytes@) {
            None => r matches Err(e) && e == LauncherError::MalformedDocument,
            Some(doc) => match spec_parse_version_data(doc, os_name@) {
                VersionDataOutcome::Parsed(vd) => r matches Ok(parsed) && parsed@ == vd,
                VersionDataOutcome::Missing(f) => r matches Err(e) && e
                    == LauncherError::MissingField(f),
                VersionDataOutcome::UnsupportedHost => r matches Err(e) && (e
                    matches LauncherError::UnsupportedOs(os) && os@ == os_name@),
            },
        },
{
    match parse_document(bytes) {
        Some(doc) => parse_version_data(&doc, os_name),
        None => Err(LauncherError::MalformedDocument),
    }
}

/// The inclusion predicate of [`LibraryView::spec_needed_for`], as a value.
pub open spec fn spec_needed_pred(os_name: Seq<char>) -> spec_fn(LibraryView) -> bool {
    |lv: LibraryView| lv.spec_needed_for(os_name)
}

pub open spec fn spec_ref_library_views(libraries: Seq<&Library>) -> Seq<LibraryView> {
    libraries.map_values(|l: &Library| l@)
}

impl VersionData {
    /// The libraries the host named `os_name` needs: exactly those whose
    /// platform restriction, if any, matches it, in catalog order.
    pub fn get_os_required_libraries(&self, os_name: &str) -> (r: Vec<&Library>)
        ensures
            spec_ref_library_views(r@) == self@.libraries.filter(spec_needed_pred(os_name@)),
    {
        let ghost pred = spec_needed_pred(os_name@);
        let mut selected: Vec<&Library> = Vec::new();
        let n: usize = self.libraries.len();
        proof {
            reveal(Seq::filter);
            assert(self@.libraries.take(0) =~= Seq::<LibraryView>::empty());
            assert(spec_ref_library_views(selected@) =~= Seq::<LibraryView>::empty());
        }
        for i in 0..n
            invariant
                n == self.libraries@.len(),
                self@.libraries == spec_library_views(self.libraries@),
                self@.libraries.len() == n,
                spec_ref_library_views(selected@) == self@.libraries.take(i as int).filter(
                    spec_needed_pred(os_name@),
                ),
        {
            let ghost prefix = self@.libraries.take(i as int);
            let ghost next_prefix = self@.libraries.take(i as int + 1);
            let ghost x = self@.libraries[i as int];
            proof {
                reveal_with_fuel(Seq::filter, 3);
                assert(next_prefix =~= prefix + seq![x]);
                Seq::<LibraryView>::filter_distributes_over_add(prefix, seq![x], pred);
                assert(seq![x].drop_last() =~= Seq::<LibraryView>::empty());
                assert(Seq::<LibraryView>::empty().filter(pred) =~= Seq::<LibraryView>::empty());
                if pred(x) {
                    assert(seq![x].filter(pred) =~= seq![x]);
                } else {
                    assert(seq![x].filter(pred) =~= Seq::<LibraryView>::empty());
                }
                assert(x == self.libraries@[i as int]@);
            }
            let needed = self.libraries[i].is_needed_for_this_os(os_name);
            if needed {
                let ghost old_selected = selected@;
                selected.push(&self.libraries[i]);
                proof {
                    assert(spec_ref_library_views(selected@) =~= spec_ref_library_views(
                        old_selected,
                    ).push(x));
                    assert(prefix.filter(pred) + seq![x] =~= prefix.filter(pred).push(x));
                }
            } else {
                proof {
                    assert(prefix.filter(pred) + Seq::<LibraryView>::empty() =~= prefix.filter(
                        pred,
                    ));
                }
            }
        }
        proof {
            assert(self@.libraries.take(n as int) =~= self@.libraries);
        }
        selected
    }
}

} // verus!
