//! The credential store's file format: one `key=value` pair per line, three
//! recognised keys, the first occurrence of a key wins.

use crate::text::{chars_of, find, lines, position, trim, trimmed, window_is};
use vstd::prelude::*;

verus! {

/// What a credential file yields: each of the three values, if the file
/// defines it.
#[derive(Clone, Debug, PartialEq, Eq)]
pub struct Config {
    pub endpoint: Option<String>,
    pub username: Option<String>,
    pub token: Option<String>,
}

/// The three values that a run against the server needs.
#[derive(Clone, Debug, PartialEq, Eq)]
pub struct Credentials {
    pub endpoint: String,
    pub username: String,
    pub token: String,
}

/// Mathematical content of a [`Config`].
pub struct ConfigView {
    pub endpoint: Option<Seq<char>>,
    pub username: Option<Seq<char>>,
    pub token: Option<Seq<char>>,
}

/// Mathematical content of an optional string.
pub open spec fn text_of(value: Option<String>) -> Option<Seq<char>> {
    match value {
        Some(s) => Some(s@),
        None => None,
    }
}

impl View for Config {
    type V = ConfigView;

    open spec fn view(&self) -> ConfigView {
        ConfigView {
            endpoint: text_of(self.endpoint),
            username: text_of(self.username),
            token: text_of(self.token),
        }
    }
}

impl ConfigView {
    /// All three values are present.
    pub open spec fn complete(self) -> bool {
        self.endpoint is Some && self.username is Some && self.token is Some
    }
}

/// Key of the server's address.
pub open spec fn key_endpoint() -> Seq<char> {
    "jenkins_url"@
}

/// Key of the account name.
pub open spec fn key_username() -> Seq<char> {
    "user"@
}

/// Key of the access token.
pub open spec fn key_token() -> Seq<char> {
    "token"@
}

/// The pair that a line holds: the line is trimmed; a blank line or one
/// that starts with `#` holds none, nor does one without `=`; otherwise the
/// key is what stands before the first `=` and the value what follows it,
/// both trimmed.
pub open spec fn entry(line: Seq<char>) -> Option<(Seq<char>, Seq<char>)> {
    let t = trimmed(line);
    let e = position(t, '=');
    if t.len() == 0 || t[0] == '#' || !(0 <= e < t.len()) {
        None
    } else {
        Some((trimmed(t.take(e)), trimmed(t.skip(e + 1))))
    }
}

/// The value that `line` gives to `key`, if it gives one.
pub open spec fn defines(line: Seq<char>, key: Seq<char>) -> Option<Seq<char>> {
    match entry(line) {
        Some((k, v)) => if k == key {
            Some(v)
        } else {
            None
        },
        None => None,
    }
}

/// Index of the first of `lines` that defines `key`, or `lines.len()`.
pub open spec fn first_defining(lines: Seq<Seq<char>>, key: Seq<char>) -> int
    decreases lines.len(),
{
    if lines.len() == 0 || defines(lines[0], key) is Some {
        0
    } else {
        1 + first_defining(lines.drop_first(), key)
    }
}

/// The value of `key` in `lines`: that of the first line that defines it.
pub open spec fn lookup(lines: Seq<Seq<char>>, key: Seq<char>) -> Option<Seq<char>> {
    let i = first_defining(lines, key);
    if 0 <= i < lines.len() {
        defines(lines[i], key)
    } else {
        None
    }
}

/// `first` if it is there, else `second`.
pub open spec fn or_else(first: Option<Seq<char>>, second: Option<Seq<char>>) -> Option<Seq<char>> {
    match first {
        Some(v) => Some(v),
        None => second,
    }
}

/// What a credential file with content `text` yields.
pub open spec fn parsed(text: Seq<char>) -> ConfigView {
    ConfigView {
        endpoint: lookup(lines(text), key_endpoint()),
        username: lookup(lines(text), key_username()),
        token: lookup(lines(text), key_token()),
    }
}

/// One line of a credential file, with its line feed.
pub open spec fn assignment(key: Seq<char>, value: Seq<char>) -> Seq<char> {
    key + seq!['='] + value + seq!['\n']
}

/// Content of the credential file that stores the three values: exactly
/// three lines, in this order.
pub open spec fn rendered(endpoint: Seq<char>, username: Seq<char>, token: Seq<char>) -> Seq<char> {
    assignment(key_endpoint(), endpoint) + assignment(key_username(), username) + assignment(
        key_token(),
        token,
    )
}

/// A value that the file format can hold unchanged: a single line without
/// white space at its ends.
pub open spec fn storable(value: Seq<char>) -> bool {
    !value.contains('\n') && trimmed(value) == value
}

/// Position of a pair inside a character vector: the key is the window
/// `[key_from, key_to)`, the value the window `[value_from, value_to)`.
pub struct Located {
    pub key_from: usize,
    pub key_to: usize,
    pub value_from: usize,
    pub value_to: usize,
}

/// Locates the pair that the line in the window `[from, to)` of `v` holds.
pub fn locate_entry(v: &Vec<char>, from: usize, to: usize) -> (r: Option<Located>)
    requires
        from <= to <= v.len(),
    ensures
        match r {
            Some(at) => {
                &&& from <= at.key_from <= at.key_to <= to
                &&& from <= at.value_from <= at.value_to <= to
                &&& entry(v@.subrange(from as int, to as int)) == Some(
                    (
                        v@.subrange(at.key_from as int, at.key_to as int),
                        v@.subrange(at.value_from as int, at.value_to as int),
                    ),
                )
            },
            None => entry(v@.subrange(from as int, to as int)) is None,
        },
{
    let (a, b) = trim(v, from, to);
    let ghost t = v@.subrange(a as int, b as int);
    if a == b || v[a] == '#' {
        return None;
    }
    let e = find(v, a, b, '=');
    if e == b {
        return None;
    }
    assert(t.take(e - a) =~= v@.subrange(a as int, e as int));
    assert(t.skip(e - a + 1) =~= v@.subrange(e + 1, b as int));
    let (key_from, key_to) = trim(v, a, e);
    let (value_from, value_to) = trim(v, e + 1, b);
    Some(Located { key_from, key_to, value_from, value_to })
}

/// Reads a credential file's content. Lines that hold no pair, and pairs
/// with another key, are passed over; of several lines with one key the
/// first counts.
pub fn read_config(text: &str) -> (cfg: Config)
    ensures
        cfg@ == parsed(text@),
{
    let v = chars_of(text);
    let k_endpoint = chars_of("jenkins_url");
    let k_username = chars_of("user");
    let k_token = chars_of("token");
    let mut endpoint: Option<String> = None;
    let mut username: Option<String> = None;
    let mut token: Option<String> = None;
    let mut start: usize = 0;
    assert(v@.skip(0) =~= v@);
    loop
        invariant_except_break
            start <= v.len(),
            parsed(text@).endpoint == or_else(
                text_of(endpoint),
                lookup(lines(v@.skip(start as int)), key_endpoint()),
            ),
            parsed(text@).username == or_else(
                text_of(username),
                lookup(lines(v@.skip(start as int)), key_username()),
            ),
            parsed(text@).token == or_else(
                text_of(token),
                lookup(lines(v@.skip(start as int)), key_token()),
            ),
        invariant
            v@ == text@,
            k_endpoint@ == key_endpoint(),
            k_username@ == key_username(),
            k_token@ == key_token(),
        ensures
            parsed(text@).endpoint == text_of(endpoint),
            parsed(text@).username == text_of(username),
            parsed(text@).token == text_of(token),
        decreases v.len() - start,
    {
        let ghost rest = v@.skip(start as int);
        assert(rest =~= v@.subrange(start as int, v.len() as int));
        let end = find(&v, start, v.len(), '\n');
        let ghost line = v@.subrange(start as int, end as int);
        let ghost tail = if end < v.len() {
            lines(v@.skip(end + 1))
        } else {
            Seq::empty()
        };
        proof {
            if end < v.len() {
                assert(rest.take(end - start) =~= line);
                assert(rest.skip(end - start + 1) =~= v@.skip(end + 1));
                assert(lines(rest) =~= seq![line] + tail);
            } else {
                assert(rest =~= line);
                assert(lines(rest) =~= seq![line] + tail);
            }
            assert((seq![line] + tail).drop_first() =~= tail);
        }
        match locate_entry(&v, start, end) {
            Some(at) => {
                if endpoint.is_none() && window_is(&v, at.key_from, at.key_to, &k_endpoint) {
                    endpoint = Some(text.substring_char(at.value_from, at.value_to).to_owned());
                }
                if username.is_none() && window_is(&v, at.key_from, at.key_to, &k_username) {
                    username = Some(text.substring_char(at.value_from, at.value_to).to_owned());
                }
                if token.is_none() && window_is(&v, at.key_from, at.key_to, &k_token) {
                    token = Some(text.substring_char(at.value_from, at.value_to).to_owned());
                }
            },
            None => {},
        }
        if end == v.len() {
            break;
        }
        start = end + 1;
    }
    Config { endpoint, username, token }
}

/// Renders the credential file that stores the three values. The result
/// does not depend on any earlier content of the file: it replaces it.
pub fn write_config(endpoint: &str, username: &str, token: &str) -> (out: String)
    ensures
        out@ == rendered(endpoint@, username@, token@),
{
    proof {
        reveal_strlit("=");
        reveal_strlit("\n");
    }
    assert("="@ =~= seq!['=']);
    assert("\n"@ =~= seq!['\n']);
    let mut out = "jenkins_url".to_owned();
    out.append("=");
    out.append(endpoint);
    out.append("\n");
    out.append("user");
    out.append("=");
    out.append(username);
    out.append("\n");
    out.append("token");
    out.append("=");
    out.append(token);
    out.append("\n");
    assert(out@ =~= rendered(endpoint@, username@, token@));
    out
}

impl Config {
    /// The credentials, if all three values are present.
    pub fn credentials(&self) -> (r: Option<Credentials>)
        ensures
            r is Some <==> self@.complete(),
            r matches Some(c) ==> self@ == (ConfigView {
                endpoint: Some(c.endpoint@),
                username: Some(c.username@),
                token: Some(c.token@),
            }),
    {
        match (&self.endpoint, &self.username, &self.token) {
            (Some(e), Some(u), Some(t)) => Some(
                Credentials { endpoint: e.clone(), username: u.clone(), token: t.clone() },
            ),
            _ => None,
        }
    }
}

/// Of several lines that define one key the first counts: `lookup` gives
/// the value of the line at `first_defining`, no line before that one
/// defines the key, and where no line does there is no value.
pub proof fn lemma_first_occurrence_wins(lines: Seq<Seq<char>>, key: Seq<char>)
    ensures
        0 <= first_defining(lines, key) <= lines.len(),
        forall|j: int| 0 <= j < first_defining(lines, key) ==> defines(#[trigger] lines[j], key) is None,
        first_defining(lines, key) < lines.len() ==> {
            &&& defines(lines[first_defining(lines, key)], key) is Some
            &&& lookup(lines, key) == defines(lines[first_defining(lines, key)], key)
        },
        first_defining(lines, key) == lines.len() ==> lookup(lines, key) is None,
    decreases lines.len(),
{
    if lines.len() == 0 || defines(lines[0], key) is Some {
    } else {
        let rest = lines.drop_first();
        lemma_first_occurrence_wins(rest, key);
        assert forall|j: int| 0 <= j < first_defining(lines, key) implies defines(
            #[trigger] lines[j],
            key,
        ) is None by {
            if j > 0 {
                assert(lines[j] == rest[j - 1]);
            }
        }
        if first_defining(lines, key) < lines.len() {
            assert(lines[first_defining(lines, key)] == rest[first_defining(rest, key)]);
        }
    }
}

/// Where line `i` defines a key and no line before it does, the key's
/// value is the one that line `i` gives, whatever the lines behind it hold.
pub proof fn lemma_lookup_is_first(lines: Seq<Seq<char>>, key: Seq<char>, i: int)
    requires
        0 <= i < lines.len(),
        defines(lines[i], key) is Some,
        forall|j: int| 0 <= j < i ==> defines(#[trigger] lines[j], key) is None,
    ensures
        lookup(lines, key) == defines(lines[i], key),
{
    lemma_first_occurrence_wins(lines, key);
    let f = first_defining(lines, key);
    if f < i {
        assert(defines(lines[f], key) is None);
    } else if f > i {
        assert(defines(lines[i], key) is None);
    }
}

/// Lines that follow a definition of a key do not change its value.
pub proof fn lemma_later_lines_ignored(head: Seq<Seq<char>>, tail: Seq<Seq<char>>, key: Seq<char>)
    requires
        lookup(head, key) is Some,
    ensures
        lookup(head + tail, key) == lookup(head, key),
{
    lemma_first_occurrence_wins(head, key);
    let f = first_defining(head, key);
    let all = head + tail;
    assert(all[f] == head[f]);
    assert forall|j: int| 0 <= j < f implies defines(#[trigger] all[j], key) is None by {
        assert(all[j] == head[j]);
    }
    lemma_lookup_is_first(all, key, f);
}

/// A key that a line can carry unchanged: not empty, free of white space,
/// of `=` and of line feeds, and not starting with `#`.
pub open spec fn plain_key(key: Seq<char>) -> bool {
    &&& key.len() > 0
    &&& key[0] != '#'
    &&& forall|i: int| 0 <= i < key.len() ==> !crate::text::is_space(#[trigger] key[i]) && key[i] != '='
}

/// The three recognised keys are plain and differ from one another.
pub proof fn lemma_keys()
    ensures
        plain_key(key_endpoint()),
        plain_key(key_username()),
        plain_key(key_token()),
        key_endpoint() != key_username(),
        key_endpoint() != key_token(),
        key_username() != key_token(),
{
    reveal_strlit("jenkins_url");
    reveal_strlit("user");
    reveal_strlit("token");
    assert(key_endpoint().len() == 11);
    assert(key_username().len() == 4);
    assert(key_token().len() == 5);
}

/// A line made of a plain key, `=` and a value holds that key and the
/// value's trimmed form.
pub proof fn lemma_entry_of_assignment(key: Seq<char>, value: Seq<char>)
    requires
        plain_key(key),
    ensures
        entry(key + seq!['='] + value) == Some((key, trimmed(value))),
{
    let head = key + seq!['='];
    let line = head + value;
    let t = head + crate::text::trim_end(value);
    assert(trimmed(line) == t) by {
        assert(line[0] == key[0]);
        assert(head.last() == '=');
        crate::text::lemma_trim_end_after(head, value);
    }
    assert(position(t, '=') == key.len()) by {
        assert(!key.contains('='));
        crate::text::lemma_position_after(key, '=', crate::text::trim_end(value));
    }
    assert(t.take(key.len() as int) =~= key);
    assert(t.skip(key.len() as int + 1) =~= crate::text::trim_end(value));
    assert(trimmed(key) == key) by {
        assert(!crate::text::is_space(key[0]));
        assert(!crate::text::is_space(key.last()));
        crate::text::lemma_trimmed_fixed(key);
    }
    crate::text::lemma_trimmed_of_trim_end(value);
    assert(t.len() > key.len());
    assert(t[0] == key[0]);
}

/// Where `line` holds no line feed, the text made of `line`, a line feed
/// and `rest` splits into `line` and the lines of `rest`.
pub proof fn lemma_lines_cons(line: Seq<char>, rest: Seq<char>)
    requires
        !line.contains('\n'),
    ensures
        lines(line + seq!['\n'] + rest) == seq![line] + lines(rest),
{
    let text = line + seq!['\n'] + rest;
    crate::text::lemma_position_after(line, '\n', rest);
    assert(text.take(line.len() as int) =~= line);
    assert(text.skip(line.len() as int + 1) =~= rest);
}

/// A written file has exactly three lines, one per key and in a fixed
/// order, each ended by a line feed, where no value holds a line feed.
pub proof fn lemma_rendered_lines(endpoint: Seq<char>, username: Seq<char>, token: Seq<char>)
    requires
        !endpoint.contains('\n'),
        !username.contains('\n'),
        !token.contains('\n'),
    ensures
        lines(rendered(endpoint, username, token)) == seq![
            key_endpoint() + seq!['='] + endpoint,
            key_username() + seq!['='] + username,
            key_token() + seq!['='] + token,
            Seq::<char>::empty(),
        ],
{
    lemma_keys();
    let l1 = key_endpoint() + seq!['='] + endpoint;
    let l2 = key_username() + seq!['='] + username;
    let l3 = key_token() + seq!['='] + token;
    let empty = Seq::<char>::empty();
    lemma_single_line(key_endpoint(), endpoint);
    lemma_single_line(key_username(), username);
    lemma_single_line(key_token(), token);
    let t3 = l3 + seq!['\n'] + empty;
    let t2 = l2 + seq!['\n'] + t3;
    let t1 = l1 + seq!['\n'] + t2;
    assert(t1 =~= rendered(endpoint, username, token));
    lemma_lines_cons(l3, empty);
    lemma_lines_cons(l2, t3);
    lemma_lines_cons(l1, t2);
    assert(lines(empty) =~= seq![empty]);
    assert(lines(t1) =~= seq![l1, l2, l3, empty]);
}

/// Reading a written file gives each value back in its trimmed form,
/// where no value holds a line feed.
pub proof fn lemma_write_then_read(endpoint: Seq<char>, username: Seq<char>, token: Seq<char>)
    requires
        !endpoint.contains('\n'),
        !username.contains('\n'),
        !token.contains('\n'),
    ensures
        parsed(rendered(endpoint, username, token)) == (ConfigView {
            endpoint: Some(trimmed(endpoint)),
            username: Some(trimmed(username)),
            token: Some(trimmed(token)),
        }),
{
    lemma_keys();
    lemma_rendered_lines(endpoint, username, token);
    let ls = lines(rendered(endpoint, username, token));
    lemma_entry_of_assignment(key_endpoint(), endpoint);
    lemma_entry_of_assignment(key_username(), username);
    lemma_entry_of_assignment(key_token(), token);
    let r1 = ls.drop_first();
    let r2 = r1.drop_first();
    assert(r1[0] == ls[1]);
    assert(r2[0] == ls[2]);
    assert(first_defining(ls, key_endpoint()) == 0);
    assert(first_defining(r1, key_username()) == 0);
    assert(first_defining(ls, key_username()) == 1);
    assert(first_defining(r2, key_token()) == 0);
    assert(first_defining(r1, key_token()) == 1);
    assert(first_defining(ls, key_token()) == 2);
}

/// Writing three storable values and reading the result gives exactly
/// these three values back.
pub proof fn lemma_round_trip(endpoint: Seq<char>, username: Seq<char>, token: Seq<char>)
    requires
        storable(endpoint),
        storable(username),
        storable(token),
    ensures
        parsed(rendered(endpoint, username, token)) == (ConfigView {
            endpoint: Some(endpoint),
            username: Some(username),
            token: Some(token),
        }),
{
    lemma_write_then_read(endpoint, username, token);
}

/// A plain key, `=` and a value without a line feed make a line without
/// one.
proof fn lemma_single_line(key: Seq<char>, value: Seq<char>)
    requires
        plain_key(key),
        !value.contains('\n'),
    ensures
        !(key + seq!['='] + value).contains('\n'),
{
    let line = key + seq!['='] + value;
    if line.contains('\n') {
        let i = choose|i: int| 0 <= i < line.len() && line[i] == '\n';
        if i < key.len() {
            assert(crate::text::is_space(key[i]));
        } else if i > key.len() {
            assert(value[i - key.len() - 1] == '\n');
        }
    }
}

/// Every value that reading yields is storable.
pub proof fn lemma_read_values_storable(text: Seq<char>)
    ensures
        parsed(text).endpoint matches Some(v) ==> storable(v),
        parsed(text).username matches Some(v) ==> storable(v),
        parsed(text).token matches Some(v) ==> storable(v),
{
    lemma_lookup_storable(text, key_endpoint());
    lemma_lookup_storable(text, key_username());
    lemma_lookup_storable(text, key_token());
}

/// The value that a text gives to a key is storable.
proof fn lemma_lookup_storable(text: Seq<char>, key: Seq<char>)
    ensures
        lookup(lines(text), key) matches Some(v) ==> storable(v),
{
    let ls = lines(text);
    crate::text::lemma_lines(text);
    lemma_first_occurrence_wins(ls, key);
    let i = first_defining(ls, key);
    if i < ls.len() {
        let line = ls[i];
        assert(!line.contains('\n'));
        let t = trimmed(line);
        let e = position(t, '=');
        let raw = t.skip(e + 1);
        let v = trimmed(raw);
        lemma_trimmed_within(line, '\n');
        assert(!raw.contains('\n')) by {
            if raw.contains('\n') {
                let j = choose|j: int| 0 <= j < raw.len() && raw[j] == '\n';
                assert(t[j + e + 1] == '\n');
            }
        }
        lemma_trimmed_within(raw, '\n');
        crate::text::lemma_trimmed(raw);
    }
}

/// Trimming adds no character.
proof fn lemma_trimmed_within(s: Seq<char>, c: char)
    requires
        !s.contains(c),
    ensures
        !trimmed(s).contains(c),
{
    crate::text::lemma_trimmed(s);
    let t = trimmed(s);
    if t.contains(c) {
        let (a, b) = choose|a: int, b: int| 0 <= a <= b <= s.len() && t == s.subrange(a, b);
        let j = choose|j: int| 0 <= j < t.len() && t[j] == c;
        assert(s[a + j] == c);
    }
}

/// Reading, writing what was read, and reading again changes nothing:
/// where a text defines all three values, the file written from them reads
/// as the text did.
pub proof fn lemma_store_is_idempotent(text: Seq<char>)
    requires
        parsed(text).complete(),
    ensures
        parsed(
            rendered(
                parsed(text).endpoint->Some_0,
                parsed(text).username->Some_0,
                parsed(text).token->Some_0,
            ),
        ) == parsed(text),
{
    lemma_read_values_storable(text);
    lemma_round_trip(
        parsed(text).endpoint->Some_0,
        parsed(text).username->Some_0,
        parsed(text).token->Some_0,
    );
}

} // verus!
