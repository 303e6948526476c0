//! The installation metadata store: the durable record of a successful
//! installation, its JSON encoding (written by this core) and its parse
//! (read back on every later launch attempt).
use vstd::prelude::*;
use vstd::string::StrSliceExecFns;
use vstd::string::StringExecFns;

use crate::errors::{JsonField, LauncherError};
use crate::json::{json_doc, parse_document, JsonValue};

verus! {

/// The fixed name under which an installation's metadata file lives in
/// its directory.
pub fn metadata_filename() -> (r: &'static str)
    ensures
        r@ == spec_metadata_filename(),
{
    "nelius_metadata.lock"
}

pub open spec fn spec_metadata_filename() -> Seq<char> {
    "nelius_metadata.lock"@
}

/// The durable record of one finished installation. With it on disk, a
/// later launch skips network resolution entirely.
#[derive(Debug, Clone)]
pub struct InstallationMetadata {
    pub main_class: String,
    pub version: String,
    pub asset_index_id: String,
    /// The client jar, relative to the installation root.
    pub client_jar_relative: String,
    /// Every non-native library, relative to the libraries root, in
    /// catalog order.
    pub classpath_relative: Vec<String>,
}

pub struct InstallationMetadataView {
    pub main_class: Seq<char>,
    pub version: Seq<char>,
    pub asset_index_id: Seq<char>,
    pub client_jar_relative: Seq<char>,
    pub classpath_relative: Seq<Seq<char>>,
}

impl View for InstallationMetadata {
    type V = InstallationMetadataView;

    open spec fn view(&self) -> InstallationMetadataView {
        InstallationMetadataView {
            main_class: self.main_class@,
            version: self.version@,
            asset_index_id: self.asset_index_id@,
            client_jar_relative: self.client_jar_relative@,
            classpath_relative: spec_string_views(self.classpath_relative@),
        }
    }
}

pub open spec fn spec_string_views(strings: Seq<String>) -> Seq<Seq<char>> {
    strings.map_values(|s: String| s@)
}

/// Relies on `String::push`: appends exactly one character.
#[verifier::external_body]
fn push_char(out: &mut String, c: char)
    ensures
        final(out)@ == old(out)@.push(c),
{
    out.push(c);
}

/// The sixteen hexadecimal digits, for the low escapes.
pub open spec fn spec_hex_digit(value: int) -> char {
    if value == 0 {
        '0'
    } else if value == 1 {
        '1'
    } else if value == 2 {
        '2'
    } else if value == 3 {
        '3'
    } else if value == 4 {
        '4'
    } else if value == 5 {
        '5'
    } else if value == 6 {
        '6'
    } else if value == 7 {
        '7'
    } else if value == 8 {
        '8'
    } else if value == 9 {
        '9'
    } else if value == 10 {
        'a'
    } else if value == 11 {
        'b'
    } else if value == 12 {
        'c'
    } else if value == 13 {
        'd'
    } else if value == 14 {
        'e'
    } else {
        'f'
    }
}

/// The JSON escape of one character: quotes and backslashes get a
/// backslash escape, the common control characters their short escape,
/// every other control character a `\u00XX` escape; everything else
/// stands as it is.
pub open spec fn spec_escape_char(c: char) -> Seq<char> {
    if c == '"' {
        seq!['\\', '"']
    } else if c == '\\' {
        seq!['\\', '\\']
    } else if c == '\n' {
        seq!['\\', 'n']
    } else if c == '\t' {
        seq!['\\', 't']
    } else if c == '\r' {
        seq!['\\', 'r']
    } else if (c as int) < 32 {
        seq!['\\', 'u', '0', '0', spec_hex_digit((c as int) / 16), spec_hex_digit((c as int) % 16)]
    } else {
        seq![c]
    }
}

fn hex_digit(value: u32) -> (r: char)
    requires
        value < 16,
    ensures
        r == spec_hex_digit(value as int),
{
    if value == 0 {
        '0'
    } else if value == 1 {
        '1'
    } else if value == 2 {
        '2'
    } else if value == 3 {
        '3'
    } else if value == 4 {
        '4'
    } else if value == 5 {
        '5'
    } else if value == 6 {
        '6'
    } else if value == 7 {
        '7'
    } else if value == 8 {
        '8'
    } else if value == 9 {
        '9'
    } else if value == 10 {
        'a'
    } else if value == 11 {
        'b'
    } else if value == 12 {
        'c'
    } else if value == 13 {
        'd'
    } else if value == 14 {
        'e'
    } else {
        'f'
    }
}

pub open spec fn spec_escape(s: Seq<char>) -> Seq<char>
    decreases s.len(),
{
    if s.len() == 0 {
        Seq::empty()
    } else {
        spec_escape(s.drop_last()) + spec_escape_char(s.last())
    }
}

/// A JSON string literal holding `s`.
pub open spec fn spec_quoted(s: Seq<char>) -> Seq<char> {
    seq!['"'] + spec_escape(s) + seq!['"']
}

fn append_escaped(out: &mut String, s: &str)
    ensures
        final(out)@ == old(out)@ + spec_escape(s@),
{
    let n: usize = s.unicode_len();
    proof {
        assert(s@.take(0) =~= Seq::<char>::empty());
        assert(out@ + Seq::<char>::empty() =~= out@);
    }
    for i in 0..n
        invariant
            n == s@.len(),
            out@ == old(out)@ + spec_escape(s@.take(i as int)),
    {
        let c: char = s.get_char(i);
        proof {
            assert(s@.take(i as int + 1).drop_last() =~= s@.take(i as int));
            assert(s@.take(i as int + 1).last() == s@[i as int]);
        }
        if c == '"' {
            push_char(out, '\\');
            push_char(out, '"');
        } else if c == '\\' {
            push_char(out, '\\');
            push_char(out, '\\');
        } else if c == '\n' {
            push_char(out, '\\');
            push_char(out, 'n');
        } else if c == '\t' {
            push_char(out, '\\');
            push_char(out, 't');
        } else if c == '\r' {
            push_char(out, '\\');
            push_char(out, 'r');
        } else if (c as u32) < 32 {
            let code: u32 = c as u32;
            push_char(out, '\\');
            push_char(out, 'u');
            push_char(out, '0');
            push_char(out, '0');
            push_char(out, hex_digit(code / 16));
            push_char(out, hex_digit(code % 16));
        } else {
            push_char(out, c);
        }
        proof {
            assert(out@ =~= old(out)@ + spec_escape(s@.take(i as int + 1)));
        }
    }
    proof {
        assert(s@.take(n as int) =~= s@);
    }
}

fn append_quoted(out: &mut String, s: &str)
    ensures
        final(out)@ == old(out)@ + spec_quoted(s@),
{
    push_char(out, '"');
    append_escaped(out, s);
    push_char(out, '"');
    proof {
        assert(old(out)@.push('"') =~= old(out)@ + seq!['"']);
        assert(out@ =~= old(out)@ + spec_quoted(s@));
    }
}

/// The JSON array of the classpath entries, without its brackets.
pub open spec fn spec_classpath_json(entries: Seq<Seq<char>>) -> Seq<char>
    decreases entries.len(),
{
    if entries.len() == 0 {
        Seq::empty()
    } else if entries.len() == 1 {
        spec_quoted(entries[0])
    } else {
        spec_classpath_json(entries.drop_last()) + seq![','] + spec_quoted(entries.last())
    }
}

/// The exact JSON text under which a metadata record is persisted.
pub open spec fn spec_metadata_json(m: InstallationMetadataView) -> Seq<char> {
    "{\"main_class\":"@ + spec_quoted(m.main_class) + ",\"version\":"@ + spec_quoted(m.version)
        + ",\"asset_index_id\":"@ + spec_quoted(m.asset_index_id) + ",\"client_jar_relative\":"@
        + spec_quoted(m.client_jar_relative) + ",\"classpath_relative\":["@ + spec_classpath_json(
        m.classpath_relative,
    ) + "]}"@
}

impl InstallationMetadata {
    /// Serialize the record to the exact JSON text the store persists.
    pub fn to_json_text(&self) -> (r: String)
        ensures
            r@ == spec_metadata_json(self@),
    {
        let mut out = String::new();
        out.append("{\"main_class\":");
        append_quoted(&mut out, self.main_class.as_str());
        out.append(",\"version\":");
        append_quoted(&mut out, self.version.as_str());
        out.append(",\"asset_index_id\":");
        append_quoted(&mut out, self.asset_index_id.as_str());
        out.append(",\"client_jar_relative\":");
        append_quoted(&mut out, self.client_jar_relative.as_str());
        out.append(",\"classpath_relative\":[");
        let ghost prefix = out@;
        let n: usize = self.classpath_relative.len();
        proof {
            assert(self@.classpath_relative.take(0) =~= Seq::<Seq<char>>::empty());
            assert(prefix + Seq::<char>::empty() =~= prefix);
        }
        for i in 0..n
            invariant
                n == self.classpath_relative@.len(),
                self@.classpath_relative == spec_string_views(self.classpath_relative@),
                self@.classpath_relative.len() == n,
                out@ == prefix + spec_classpath_json(self@.classpath_relative.take(i as int)),
        {
            if i > 0 {
                push_char(&mut out, ',');
            }
            append_quoted(&mut out, self.classpath_relative[i].as_str());
            proof {
                let entries = self@.classpath_relative;
                assert(entries.take(i as int + 1).drop_last() =~= entries.take(i as int));
                assert(entries.take(i as int + 1).last() == entries[i as int]);
                assert(entries[i as int] == self.classpath_relative@[i as int]@);
                if i == 0 {
                    assert(out@ =~= prefix + spec_classpath_json(entries.take(1)));
                } else {
                    assert(out@ =~= prefix + spec_classpath_json(entries.take(i as int + 1)));
                }
            }
        }
        proof {
            assert(self@.classpath_relative.take(n as int) =~= self@.classpath_relative);
        }
        out.append("]}");
        proof {
            assert(out@ =~= spec_metadata_json(self@));
        }
        out
    }
}

/// The parse of a classpath array: every element must be a string.
pub open spec fn spec_parse_classpath(items: Seq<JsonValue>) -> Option<Seq<Seq<char>>>
    decreases items.len(),
{
    if items.len() == 0 {
        Some(Seq::empty())
    } else {
        match items[0].spec_str() {
            None => None,
            Some(head) => match spec_parse_classpath(items.drop_first()) {
                None => None,
                Some(tail) => Some(seq![head] + tail),
            },
        }
    }
}

/// The parse of a persisted metadata document, consulting the fields in a
/// fixed order.
pub open spec fn spec_parse_metadata(doc: JsonValue) -> Result<InstallationMetadataView, JsonField> {
    match doc.spec_get_str("main_class"@) {
        None => Err(JsonField::MetadataMainClass),
        Some(main_class) => match doc.spec_get_str("version"@) {
            None => Err(JsonField::MetadataVersion),
            Some(version) => match doc.spec_get_str("asset_index_id"@) {
                None => Err(JsonField::MetadataAssetIndexId),
                Some(asset_index_id) => match doc.spec_get_str("client_jar_relative"@) {
                    None => Err(JsonField::MetadataClientJar),
                    Some(client_jar_relative) => match doc.spec_get("classpath_relative"@) {
                        None => Err(JsonField::MetadataClasspath),
                        Some(classpath_field) => match classpath_field.spec_arr() {
                            None => Err(JsonField::MetadataClasspath),
                            Some(items) => match spec_parse_classpath(items) {
                                None => Err(JsonField::MetadataClasspath),
                                Some(classpath_relative) => Ok(
                                    InstallationMetadataView {
                                        main_class,
                                        version,
                                        asset_index_id,
                                        client_jar_relative,
                                        classpath_relative,
                                    },
                                ),
                            },
                        },
                    },
                },
            },
        },
    }
}

proof fn lemma_parse_classpath_step(items: Seq<JsonValue>, i: int)
    requires
        0 <= i < items.len(),
    ensures
        spec_parse_classpath(items.skip(i)) == (match items[i].spec_str() {
            None => None::<Seq<Seq<char>>>,
            Some(head) => match spec_parse_classpath(items.skip(i + 1)) {
                None => None,
                Some(tail) => Some(seq![head] + tail),
            },
        }),
{
    assert(items.skip(i)[0] == items[i]);
    assert(items.skip(i).drop_first() =~= items.skip(i + 1));
}

fn parse_classpath(items: &Vec<JsonValue>) -> (r: Option<Vec<String>>)
    ensures
        match spec_parse_classpath(items@) {
            Some(views) => r matches Some(parsed) && spec_string_views(parsed@) == views,
            None => r is None,
        },
{
    let mut parsed: Vec<String> = Vec::new();
    let n: usize = items.len();
    assert(items@.skip(0) =~= items@);
    assert(spec_string_views(parsed@) =~= Seq::<Seq<char>>::empty());
    for i in 0..n
        invariant
            n == items@.len(),
            forall|tail: Seq<Seq<char>>|
                spec_parse_classpath(items@.skip(i as int)) == Some(tail)
                    ==> spec_parse_classpath(items@) == Some(spec_string_views(parsed@) + tail),
            spec_parse_classpath(items@.skip(i as int)) is None ==> spec_parse_classpath(items@)
                is None,
    {
        proof {
            lemma_parse_classpath_step(items@, i as int);
        }
        match items[i].as_str() {
            Some(entry) => {
                let ghost old_parsed = parsed@;
                let entry_owned: String = entry.clone();
                parsed.push(entry_owned);
                proof {
                    assert(spec_string_views(parsed@) =~= spec_string_views(old_parsed) + seq![
                        entry@,
                    ]);
                    assert(forall|tail: Seq<Seq<char>>|
                        spec_string_views(old_parsed) + (seq![entry@] + tail) =~= spec_string_views(
                            parsed@,
                        ) + tail);
                }
            },
            None => {
                return None;
            },
        }
    }
    assert(items@.skip(n as int) =~= Seq::<JsonValue>::empty());
    assert(spec_string_views(parsed@) + Seq::<Seq<char>>::empty() =~= spec_string_views(parsed@));
    Some(parsed)
}

impl InstallationMetadata {
    /// Parse a decoded metadata document.
    pub fn from_json(doc: &JsonValue) -> (r: Result<InstallationMetadata, LauncherError>)
        ensures
            match spec_parse_metadata(*doc) {
                Ok(mv) => r matches Ok(m) && m@ == mv,
                Err(f) => r matches Err(e) && e == LauncherError::MissingField(f),
            },
    {
        let main_class: &String = match doc.get_str("main_class") {
            Some(main_class) => main_class,
            None => {
                return Err(LauncherError::MissingField(JsonField::MetadataMainClass));
            },
        };
        let version: &String = match doc.get_str("version") {
            Some(version) => version,
            None => {
                return Err(LauncherError::MissingField(JsonField::MetadataVersion));
            },
        };
        let asset_index_id: &String = match doc.get_str("asset_index_id") {
            Some(asset_index_id) => asset_index_id,
            None => {
                return Err(LauncherError::MissingField(JsonField::MetadataAssetIndexId));
            },
        };
        let client_jar_relative: &String = match doc.get_str("client_jar_relative") {
            Some(client_jar_relative) => client_jar_relative,
            None => {
                return Err(LauncherError::MissingField(JsonField::MetadataClientJar));
            },
        };
        let items: &Vec<JsonValue> = match doc.get("classpath_relative") {
            Some(classpath_field) => match classpath_field.as_array() {
                Some(items) => items,
                None => {
                    return Err(LauncherError::MissingField(JsonField::MetadataClasspath));
                },
            },
            None => {
                return Err(LauncherError::MissingField(JsonField::MetadataClasspath));
            },
        };
        let classpath_relative: Vec<String> = match parse_classpath(items) {
            Some(classpath_relative) => classpath_relative,
            None => {
                return Err(LauncherError::MissingField(JsonField::MetadataClasspath));
            },
        };
        Ok(InstallationMetadata {
            main_class: main_class.clone(),
            version: version.clone(),
            asset_index_id: asset_index_id.clone(),
            client_jar_relative: client_jar_relative.clone(),
            classpath_relative: classpath_relative,
        })
    }

    /// Parse the raw bytes of a persisted metadata file. A well-formed
    /// record comes back as it was written; anything else is the signal
    /// that the directory holds no finished installation.
    pub fn from_bytes(bytes: &[u8]) -> (r: Result<InstallationMetadata, LauncherError>)
        ensures
            match json_doc(bytes@) {
                None => r matches Err(e) && e == LauncherError::MalformedDocument,
                Some(doc) => match spec_parse_metadata(doc) {
                    Ok(mv) => r matches Ok(m) && m@ == mv,
                    Err(f) => r matches Err(e) && e == LauncherError::MissingField(f),
                },
            },
    {
        match parse_document(bytes) {
            Some(doc) => InstallationMetadata::from_json(&doc),
            None => Err(LauncherError::MalformedDocument),
        }
    }
}

/// What the launch collaborator needs of one profile's installation: the
/// metadata record without the version id.
#[derive(Debug, Clone)]
pub struct ProfileInstallationData {
    pub asset_index_id: String,
    pub client_jar_relative: String,
    pub classpath_relative: Vec<String>,
    pub main_class: String,
}

pub struct ProfileInstallationDataView {
    pub asset_index_id: Seq<char>,
    pub client_jar_relative: Seq<char>,
    pub classpath_relative: Seq<Seq<char>>,
    pub main_class: Seq<char>,
}

impl View for ProfileInstallationData {
    type V = ProfileInstallationDataView;

    open spec fn view(&self) -> ProfileInstallationDataView {
        ProfileInstallationDataView {
            asset_index_id: self.asset_index_id@,
            client_jar_relative: self.client_jar_relative@,
            classpath_relative: spec_string_views(self.classpath_relative@),
            main_class: self.main_class@,
        }
    }
}

impl ProfileInstallationData {
    /// The launch-facing slice of a full metadata record.
    pub fn from_metadata(m: &InstallationMetadata) -> (r: ProfileInstallationData)
        ensures
            r@.asset_index_id == m@.asset_index_id,
            r@.client_jar_relative == m@.client_jar_relative,
            r@.classpath_relative == m@.classpath_relative,
            r@.main_class == m@.main_class,
    {
        let mut classpath_relative: Vec<String> = Vec::new();
        let n: usize = m.classpath_relative.len();
        proof {
            assert(spec_string_views(classpath_relative@) =~= Seq::<Seq<char>>::empty());
            assert(m@.classpath_relative.take(0) =~= Seq::<Seq<char>>::empty());
        }
        for i in 0..n
            invariant
                n == m.classpath_relative@.len(),
                m@.classpath_relative == spec_string_views(m.classpath_relative@),
                m@.classpath_relative.len() == n,
                spec_string_views(classpath_relative@) == m@.classpath_relative.take(i as int),
        {
            let ghost old_entries = classpath_relative@;
            let entry: String = m.classpath_relative[i].clone();
            classpath_relative.push(entry);
            proof {
                assert(entry@ == m@.classpath_relative[i as int]);
                assert(spec_string_views(classpath_relative@) =~= spec_string_views(
                    old_entries,
                ).push(entry@));
                assert(m@.classpath_relative.take(i as int + 1) =~= m@.classpath_relative.take(
                    i as int,
                ).push(m@.classpath_relative[i as int]));
            }
        }
        proof {
            assert(m@.classpath_relative.take(n as int) =~= m@.classpath_relative);
        }
        ProfileInstallationData {
            asset_index_id: m.asset_index_id.clone(),
            client_jar_relative: m.client_jar_relative.clone(),
            classpath_relative: classpath_relative,
            main_class: m.main_class.clone(),
        }
    }
}

} // verus!
