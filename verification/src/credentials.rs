//! The client's identifier and secret, read from the lines of a `key=value`
//! text.

use vstd::prelude::*;
use vstd::string::StrSliceExecFns;

verus! {

/// The key of the client identifier.
pub const CLIENT_ID_KEY: &'static str = "CLIENT_ID";

/// The key of the client secret.
pub const CLIENT_SECRET_KEY: &'static str = "CLIENT_SECRET";

/// Which of the two is missing from the lines.
#[derive(Clone, Copy, Debug, PartialEq, Eq, Structural)]
pub enum CredentialsError {
    MissingClientId,
    MissingClientSecret,
}

/// Whether a character is whitespace: the characters with the Unicode
/// property White_Space.
pub open spec fn is_whitespace(c: char) -> bool {
    let code: u32 = c as u32;
    ||| 0x09 <= code <= 0x0d
    ||| code == 0x20
    ||| code == 0x85
    ||| code == 0xa0
    ||| code == 0x1680
    ||| 0x2000 <= code <= 0x200a
    ||| code == 0x2028
    ||| code == 0x2029
    ||| code == 0x202f
    ||| code == 0x205f
    ||| code == 0x3000
}

/// A text without the whitespace at its start.
pub open spec fn spec_trim_start(text: Seq<char>) -> Seq<char>
    decreases text.len(),
{
    if text.len() > 0 && is_whitespace(text[0]) {
        spec_trim_start(text.drop_first())
    } else {
        text
    }
}

/// A text without the whitespace at its end.
pub open spec fn spec_trim_end(text: Seq<char>) -> Seq<char>
    decreases text.len(),
{
    if text.len() > 0 && is_whitespace(text.last()) {
        spec_trim_end(text.drop_last())
    } else {
        text
    }
}

/// A text without the whitespace at its start and at its end.
pub open spec fn spec_trim(text: Seq<char>) -> Seq<char> {
    spec_trim_end(spec_trim_start(text))
}

/// `str::trim`: the slice without leading and trailing whitespace, which
/// is what has the Unicode property White_Space.
#[verifier::external_body]
pub(crate) fn trim<'a>(text: &'a str) -> (inner: &'a str)
    ensures
        inner@ == spec_trim(text@),
{
    text.trim()
}

/// Whether the text begins with the character `first`.
pub fn starts_with(text: &str, first: char) -> (found: bool)
    ensures
        found == (text@.len() > 0 && text@[0] == first),
{
    !text.is_empty() && text.get_char(0) == first
}

/// The text before the first `delimiter` and the text after it; `None`
/// where the text holds no `delimiter`.
pub open spec fn spec_split_once(text: Seq<char>, delimiter: char) -> Option<
    (Seq<char>, Seq<char>),
> {
    match text.index_of_first(delimiter) {
        Some(at) => Some((text.take(at), text.skip(at + 1))),
        None => None,
    }
}

/// `str::split_once` for one character: the text is split at the first
/// occurrence of the delimiter, which belongs to neither part.
#[verifier::external_body]
pub(crate) fn split_once<'a>(text: &'a str, delimiter: char) -> (parts: Option<(&'a str, &'a str)>)
    ensures
        match spec_split_once(text@, delimiter) {
            Some((before, after)) => parts is Some && parts->Some_0.0@ == before
                && parts->Some_0.1@ == after,
            None => parts is None,
        },
{
    text.split_once(delimiter)
}

/// The key and the value that a line gives, both trimmed. A line of
/// whitespace alone, a line that begins with `#` and a line without `=`
/// give none.
pub open spec fn spec_entry(line: Seq<char>) -> Option<(Seq<char>, Seq<char>)> {
    if spec_trim(line).len() == 0 || (line.len() > 0 && line[0] == '#') {
        None
    } else {
        match spec_split_once(line, '=') {
            Some((key, value)) => Some((spec_trim(key), spec_trim(value))),
            None => None,
        }
    }
}

/// `spec_entry` as a value, for `Seq::filter_map`.
pub open spec fn entry_filter() -> spec_fn(Seq<char>) -> Option<(Seq<char>, Seq<char>)> {
    |line: Seq<char>| spec_entry(line)
}

/// The entries that the lines give, in the order of the lines.
pub open spec fn spec_entries(lines: Seq<Seq<char>>) -> Seq<(Seq<char>, Seq<char>)> {
    lines.filter_map(entry_filter())
}

/// The value that the entries give for `key`: that of the last entry with
/// this key.
pub open spec fn spec_lookup(entries: Seq<(Seq<char>, Seq<char>)>, key: Seq<char>) -> Option<
    Seq<char>,
>
    decreases entries.len(),
{
    if entries.len() == 0 {
        None
    } else if entries.last().0 == key {
        Some(entries.last().1)
    } else {
        spec_lookup(entries.drop_last(), key)
    }
}

/// The client identifier and the client secret that the entries give, or
/// the first of the two that is missing.
pub open spec fn spec_find_credentials(entries: Seq<(Seq<char>, Seq<char>)>) -> Result<
    (Seq<char>, Seq<char>),
    CredentialsError,
> {
    match spec_lookup(entries, CLIENT_ID_KEY@) {
        None => Err(CredentialsError::MissingClientId),
        Some(client_id) => match spec_lookup(entries, CLIENT_SECRET_KEY@) {
            None => Err(CredentialsError::MissingClientSecret),
            Some(client_secret) => Ok((client_id, client_secret)),
        },
    }
}

/// The characters of each line, in the same order.
pub open spec fn lines_view(lines: Seq<String>) -> Seq<Seq<char>> {
    lines.map_values(|line: String| line@)
}

/// The characters of each entry's key and value, in the same order.
pub open spec fn entries_view(entries: Seq<(String, String)>) -> Seq<(Seq<char>, Seq<char>)> {
    entries.map_values(|entry: (String, String)| (entry.0@, entry.1@))
}

impl CredentialsError {
    /// The text of the failure.
    pub open spec fn spec_message(self) -> Seq<char> {
        match self {
            CredentialsError::MissingClientId => "CLIENT_ID is missing from .env"@,
            CredentialsError::MissingClientSecret => "CLIENT_SECRET is missing from .env"@,
        }
    }

    /// The text of the failure, for a caller that prints it.
    pub fn message(&self) -> (text: String)
        ensures
            text@ == self.spec_message(),
    {
        match self {
            CredentialsError::MissingClientId => "CLIENT_ID is missing from .env".to_owned(),
            CredentialsError::MissingClientSecret => "CLIENT_SECRET is missing from .env".to_owned(),
        }
    }
}

/// Reads one line.
pub fn parse_entry(line: &str) -> (entry: Option<(String, String)>)
    ensures
        match spec_entry(line@) {
            Some((key, value)) => entry is Some && entry->Some_0.0@ == key && entry->Some_0.1@
                == value,
            None => entry is None,
        },
{
    if trim(line).is_empty() || starts_with(line, '#') {
        return None;
    }
    match split_once(line, '=') {
        Some((key, value)) => Some((trim(key).to_owned(), trim(value).to_owned())),
        None => None,
    }
}

/// Reads the entries of the lines of a `key=value` text.
pub fn parse_entries(lines: &Vec<String>) -> (entries: Vec<(String, String)>)
    ensures
        entries_view(entries@) == spec_entries(lines_view(lines@)),
{
    let ghost all = lines_view(lines@);
    let mut entries: Vec<(String, String)> = Vec::new();
    let mut i: usize = 0;
    assert(entries_view(entries@) =~= spec_entries(all.take(0)));
    while i < lines.len()
        invariant
            i <= lines.len(),
            all == lines_view(lines@),
            entries_view(entries@) == spec_entries(all.take(i as int)),
        decreases lines.len() - i,
    {
        proof {
            all.lemma_filter_map_take_succ(entry_filter(), i as int);
            assert(all[i as int] == lines@[i as int]@);
        }
        let ghost before = entries@;
        match parse_entry(lines[i].as_str()) {
            Some(entry) => {
                entries.push(entry);
                assert(entries_view(entries@) =~= entries_view(before) + seq![
                    (entry.0@, entry.1@),
                ]);
            },
            None => {},
        }
        i += 1;
    }
    assert(all.take(i as int) =~= all);
    entries
}

/// Picks the client identifier and the client secret from the entries. Of
/// several entries with one key the last counts.
pub fn find_credentials(entries: &Vec<(String, String)>) -> (credentials: Result<
    (String, String),
    CredentialsError,
>)
    ensures
        match spec_find_credentials(entries_view(entries@)) {
            Ok((client_id, client_secret)) => credentials is Ok && credentials->Ok_0.0@
                == client_id && credentials->Ok_0.1@ == client_secret,
            Err(missing) => credentials == Err::<(String, String), CredentialsError>(missing),
        },
{
    let ghost all = entries_view(entries@);
    let id_key = CLIENT_ID_KEY.to_owned();
    let secret_key = CLIENT_SECRET_KEY.to_owned();
    let mut client_id: Option<String> = None;
    let mut client_secret: Option<String> = None;
    let mut i: usize = 0;
    while i < entries.len()
        invariant
            i <= entries.len(),
            all == entries_view(entries@),
            id_key@ == CLIENT_ID_KEY@,
            secret_key@ == CLIENT_SECRET_KEY@,
            match spec_lookup(all.take(i as int), CLIENT_ID_KEY@) {
                Some(value) => client_id is Some && client_id->Some_0@ == value,
                None => client_id is None,
            },
            match spec_lookup(all.take(i as int), CLIENT_SECRET_KEY@) {
                Some(value) => client_secret is Some && client_secret->Some_0@ == value,
                None => client_secret is None,
            },
        decreases entries.len() - i,
    {
        proof {
            assert(all.take(i + 1).drop_last() =~= all.take(i as int));
            assert(all.take(i + 1).last() == (entries@[i as int].0@, entries@[i as int].1@));
            reveal_strlit("CLIENT_ID");
            reveal_strlit("CLIENT_SECRET");
            assert(CLIENT_ID_KEY@.len() != CLIENT_SECRET_KEY@.len());
        }
        if entries[i].0 == id_key {
            client_id = Some(entries[i].1.clone());
        } else if entries[i].0 == secret_key {
            client_secret = Some(entries[i].1.clone());
        }
        i += 1;
    }
    assert(all.take(i as int) =~= all);
    match client_id {
        None => Err(CredentialsError::MissingClientId),
        Some(client_id) => match client_secret {
            None => Err(CredentialsError::MissingClientSecret),
            Some(client_secret) => Ok((client_id, client_secret)),
        },
    }
}

/// Reads the client identifier and the client secret from the lines of a
/// `key=value` text.
pub fn load_credentials(lines: &Vec<String>) -> (credentials: Result<
    (String, String),
    CredentialsError,
>)
    ensures
        match spec_find_credentials(spec_entries(lines_view(lines@))) {
            Ok((client_id, client_secret)) => credentials is Ok && credentials->Ok_0.0@
                == client_id && credentials->Ok_0.1@ == client_secret,
            Err(missing) => credentials == Err::<(String, String), CredentialsError>(missing),
        },
{
    let entries = parse_entries(lines);
    find_credentials(&entries)
}

} // verus!
