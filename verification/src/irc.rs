//! Raw IRC message model: a line is split into tags, prefix, command,
//! middle parameters and an optional trailing parameter.
//!
//! The wire format is `@tags :nick!user@host COMMAND p1 p2 :trailing`,
//! with every section but the command optional.  A parsed message keeps
//! one owned buffer and byte-offset ranges into it; fields are resolved
//! to slices on demand.

use vstd::prelude::*;
use vstd::slice::slice_subrange;

verus! {

/// Byte values of the delimiters of the wire format.
pub const SPACE: u8 = 32;
/// `:` introduces a prefix or the trailing parameter.
pub const COLON: u8 = 58;
/// `;` separates tag items.
pub const SEMI: u8 = 59;
/// `=` separates a tag key from its value.
pub const EQUALS: u8 = 61;
/// `@` introduces the tag section and the prefix host.
pub const AT: u8 = 64;
/// `!` separates the prefix nick from the user.
pub const BANG: u8 = 33;
/// Carriage return; with `LF` it terminates a line.
pub const CR: u8 = 13;
/// Line feed.
pub const LF: u8 = 10;

/// Mathematical model of one parsed message: every field fully resolved
/// to the byte sequence it denotes.
pub struct RawSpec {
    /// Tag keys with their (possibly empty) values, in wire order.
    pub tags: Seq<(Seq<u8>, Seq<u8>)>,
    /// Prefix nick, when a prefix is present.
    pub nick: Option<Seq<u8>>,
    /// Prefix user, when `!user` is present.
    pub user: Option<Seq<u8>>,
    /// Prefix host, when `@host` is present.
    pub host: Option<Seq<u8>>,
    /// The command token; always present in a parsed message.
    pub command: Seq<u8>,
    /// Middle parameters, in wire order.
    pub params: Seq<Seq<u8>>,
    /// Trailing parameter, which may contain spaces.
    pub trailing: Option<Seq<u8>>,
}

/// Index of the first occurrence of `b` in `s` at or after `from`,
/// or `s.len()` when there is none.
pub open spec fn find_from(s: Seq<u8>, from: int, b: u8) -> int
    decreases s.len() - from,
{
    if from < 0 || from >= s.len() {
        s.len() as int
    } else if s[from] == b {
        from
    } else {
        find_from(s, from + 1, b)
    }
}

pub proof fn lemma_find_from(s: Seq<u8>, from: int, b: u8)
    requires
        0 <= from <= s.len(),
    ensures
        from <= find_from(s, from, b) <= s.len(),
        find_from(s, from, b) < s.len() ==> s[find_from(s, from, b)] == b,
        forall|k: int| from <= k < find_from(s, from, b) ==> s[k] != b,
    decreases s.len() - from,
{
    if from < s.len() && s[from] != b {
        lemma_find_from(s, from + 1, b);
    }
}

/// One tag item `key` or `key=value`; a missing value is the empty sequence.
pub open spec fn parse_tag_item(item: Seq<u8>) -> (Seq<u8>, Seq<u8>) {
    let eq = find_from(item, 0, EQUALS);
    if eq == item.len() {
        (item, Seq::empty())
    } else {
        (item.subrange(0, eq), item.subrange(eq + 1, item.len() as int))
    }
}

/// The semicolon-separated items of a tag section, each split into key
/// and value.  Malformed items are kept as they stand, never rejected.
pub open spec fn parse_tags(s: Seq<u8>) -> Seq<(Seq<u8>, Seq<u8>)>
    decreases s.len(),
    via parse_tags_decreases
{
    if s.len() == 0 {
        Seq::empty()
    } else {
        let semi = find_from(s, 0, SEMI);
        let pair = parse_tag_item(s.subrange(0, semi));
        if semi == s.len() {
            seq![pair]
        } else {
            seq![pair] + parse_tags(s.subrange(semi + 1, s.len() as int))
        }
    }
}

#[via_fn]
proof fn parse_tags_decreases(s: Seq<u8>) {
    lemma_find_from(s, 0, SEMI);
}

/// A prefix `nick[!user][@host]`, split into its parts.
pub open spec fn parse_prefix(p: Seq<u8>) -> (Seq<u8>, Option<Seq<u8>>, Option<Seq<u8>>) {
    let at = find_from(p, 0, AT);
    let host = if at == p.len() { None } else { Some(p.subrange(at + 1, p.len() as int)) };
    let pre = p.subrange(0, at);
    let bang = find_from(pre, 0, BANG);
    if bang == pre.len() {
        (pre, None, host)
    } else {
        (pre.subrange(0, bang), Some(pre.subrange(bang + 1, pre.len() as int)), host)
    }
}

/// Middle parameters and the optional trailing parameter of the text
/// after the command: space-separated tokens, until a token that starts
/// with `:` begins the trailing parameter, which runs to the end.
pub open spec fn parse_params(s: Seq<u8>) -> (Seq<Seq<u8>>, Option<Seq<u8>>)
    decreases s.len(),
    via parse_params_decreases
{
    if s.len() == 0 {
        (Seq::empty(), None)
    } else if s[0] == COLON {
        (Seq::empty(), Some(s.subrange(1, s.len() as int)))
    } else {
        let sp = find_from(s, 0, SPACE);
        let tok = s.subrange(0, sp);
        if sp == s.len() {
            (seq![tok], None)
        } else {
            let rest = parse_params(s.subrange(sp + 1, s.len() as int));
            (seq![tok] + rest.0, rest.1)
        }
    }
}

#[via_fn]
proof fn parse_params_decreases(s: Seq<u8>) {
    lemma_find_from(s, 0, SPACE);
}

/// The tag section of a line and what follows it: for a line starting
/// with `@`, the tags run to the first space.
pub open spec fn split_off_tags(line: Seq<u8>) -> (Seq<(Seq<u8>, Seq<u8>)>, Seq<u8>) {
    if line.len() > 0 && line[0] == AT {
        let sp = find_from(line, 1, SPACE);
        let tags = parse_tags(line.subrange(1, sp));
        if sp == line.len() {
            (tags, Seq::empty())
        } else {
            (tags, line.subrange(sp + 1, line.len() as int))
        }
    } else {
        (Seq::empty(), line)
    }
}

/// The prefix of the text after the tags and what follows it: for text
/// starting with `:`, the prefix runs to the first space.
pub open spec fn split_off_prefix(rest: Seq<u8>) -> (Option<Seq<u8>>, Seq<u8>) {
    if rest.len() > 0 && rest[0] == COLON {
        let sp = find_from(rest, 1, SPACE);
        let pre = rest.subrange(1, sp);
        if sp == rest.len() {
            (Some(pre), Seq::empty())
        } else {
            (Some(pre), rest.subrange(sp + 1, rest.len() as int))
        }
    } else {
        (None, rest)
    }
}

/// Full parse of one line (line terminator already removed).  `None`
/// means the line holds no command and is skipped.
pub open spec fn parse_line(line: Seq<u8>) -> Option<RawSpec> {
    let (tags, rest1) = split_off_tags(line);
    let (pre, rest2) = split_off_prefix(rest1);
    let cmd_end = find_from(rest2, 0, SPACE);
    let command = rest2.subrange(0, cmd_end);
    if command.len() == 0 || command[0] == COLON {
        None
    } else {
        let after = if cmd_end == rest2.len() {
            Seq::<u8>::empty()
        } else {
            rest2.subrange(cmd_end + 1, rest2.len() as int)
        };
        let (params, trailing) = parse_params(after);
        let (nick, user, host) = match pre {
            Some(p) => {
                let (n, u, h) = parse_prefix(p);
                (Some(n), u, h)
            },
            None => (None, None, None),
        };
        Some(RawSpec { tags, nick, user, host, command, params, trailing })
    }
}

/// `find_from` pinned down: `i` is the first occurrence when `b`
/// stands at `i` (or `i` is the end) and nowhere earlier.
pub proof fn lemma_find_from_is(s: Seq<u8>, from: int, b: u8, i: int)
    requires
        0 <= from <= i <= s.len(),
        i < s.len() ==> s[i] == b,
        forall|k: int| from <= k < i ==> s[k] != b,
    ensures
        find_from(s, from, b) == i,
    decreases i - from,
{
    if from < i {
        lemma_find_from_is(s, from + 1, b, i);
    }
}

/// One tag `key=value` parses into exactly that pair: the first `=`
/// splits it, the value keeps any later `=` verbatim.
pub proof fn lemma_parse_single_tag(key: Seq<u8>, value: Seq<u8>)
    requires
        forall|i: int| 0 <= i < key.len() ==> key[i] != EQUALS && key[i] != SEMI,
        forall|i: int| 0 <= i < value.len() ==> value[i] != SEMI,
    ensures
        parse_tags(key + seq![EQUALS] + value) =~= seq![(key, value)],
{
    let s = key + seq![EQUALS] + value;
    lemma_find_from_is(s, 0, SEMI, s.len() as int);
    assert(s.subrange(0, s.len() as int) =~= s);
    lemma_find_from_is(s, 0, EQUALS, key.len() as int);
    assert(s.subrange(0, key.len() as int) =~= key);
    assert(s.subrange(key.len() as int + 1, s.len() as int) =~= value);
}

/// A full prefix `nick!user@host` parses into exactly its parts: the
/// first `@` ends the user, which may itself contain `!`.
pub proof fn lemma_parse_full_prefix(nick: Seq<u8>, user: Seq<u8>, host: Seq<u8>)
    requires
        forall|i: int| 0 <= i < nick.len() ==> nick[i] != BANG && nick[i] != AT,
        forall|i: int| 0 <= i < user.len() ==> user[i] != AT,
    ensures
        parse_prefix(nick + seq![BANG] + user + seq![AT] + host) == (nick, Some(user), Some(host)),
{
    let p = nick + seq![BANG] + user + seq![AT] + host;
    let at = nick.len() + 1 + user.len();
    lemma_find_from_is(p, 0, AT, at as int);
    assert(p.subrange(at as int + 1, p.len() as int) =~= host);
    let pre = p.subrange(0, at as int);
    assert(pre =~= nick + seq![BANG] + user);
    lemma_find_from_is(pre, 0, BANG, nick.len() as int);
    assert(pre.subrange(0, nick.len() as int) =~= nick);
    assert(pre.subrange(nick.len() as int + 1, pre.len() as int) =~= user);
}

/// A byte-offset range into a message's backing buffer.
#[derive(Clone, Copy, Debug)]
pub struct Range {
    pub start: usize,
    pub end: usize,
}

/// Offsets of one tag's key and value.
#[derive(Clone, Copy, Debug)]
pub struct TagRange {
    pub key: Range,
    pub value: Range,
}

/// Offsets of the prefix parts `nick[!user][@host]`.
#[derive(Clone, Copy, Debug)]
pub struct PrefixRanges {
    pub nick: Range,
    pub user: Option<Range>,
    pub host: Option<Range>,
}

/// Whether `r` stays within a buffer of length `n`.
pub open spec fn range_wf(r: Range, n: int) -> bool {
    r.start <= r.end && r.end <= n
}

/// The bytes that `r` denotes in `buf`.
pub open spec fn range_seq(buf: Seq<u8>, r: Range) -> Seq<u8> {
    buf.subrange(r.start as int, r.end as int)
}

/// The byte sequences that a list of ranges denotes.
pub open spec fn ranges_view(buf: Seq<u8>, rs: Seq<Range>) -> Seq<Seq<u8>> {
    rs.map_values(|r: Range| range_seq(buf, r))
}

/// The key/value pairs that a list of tag ranges denotes.
pub open spec fn tags_view(buf: Seq<u8>, ts: Seq<TagRange>) -> Seq<(Seq<u8>, Seq<u8>)> {
    ts.map_values(|t: TagRange| (range_seq(buf, t.key), range_seq(buf, t.value)))
}

/// Why a line was refused: it holds no command, or it is longer than
/// the decoder's configured maximum.  Either way only that line is
/// dropped; decoding goes on with the next one.
#[derive(Clone, Copy, Debug, PartialEq, Eq, Structural)]
pub enum DecodeError {
    EmptyMessage,
    LineTooLong,
}

/// One parsed message: an owned backing buffer and byte-offset ranges
/// into it, one per recorded field.  Fields are resolved to slices on
/// demand; once built, the ranges never change.
#[derive(Debug)]
pub struct RawMessage {
    buf: Vec<u8>,
    tags: Vec<TagRange>,
    prefix: Option<PrefixRanges>,
    command: Range,
    params: Vec<Range>,
    trailing: Option<Range>,
}

impl View for RawMessage {
    type V = RawSpec;

    closed spec fn view(&self) -> RawSpec {
        RawSpec {
            tags: tags_view(self.buf@, self.tags@),
            nick: match self.prefix {
                Some(p) => Some(range_seq(self.buf@, p.nick)),
                None => None,
            },
            user: match self.prefix {
                Some(p) => match p.user {
                    Some(u) => Some(range_seq(self.buf@, u)),
                    None => None,
                },
                None => None,
            },
            host: match self.prefix {
                Some(p) => match p.host {
                    Some(h) => Some(range_seq(self.buf@, h)),
                    None => None,
                },
                None => None,
            },
            command: range_seq(self.buf@, self.command),
            params: ranges_view(self.buf@, self.params@),
            trailing: match self.trailing {
                Some(t) => Some(range_seq(self.buf@, t)),
                None => None,
            },
        }
    }
}

impl RawMessage {
    /// Every recorded range stays within the backing buffer.
    pub closed spec fn wf(self) -> bool {
        let n = self.buf@.len() as int;
        &&& forall|i: int|
            0 <= i < self.tags@.len() ==> range_wf(#[trigger] self.tags@[i].key, n) && range_wf(
                self.tags@[i].value,
                n,
            )
        &&& match self.prefix {
            Some(p) => range_wf(p.nick, n) && match p.user {
                Some(u) => range_wf(u, n),
                None => true,
            } && match p.host {
                Some(h) => range_wf(h, n),
                None => true,
            },
            None => true,
        }
        &&& range_wf(self.command, n)
        &&& forall|i: int| 0 <= i < self.params@.len() ==> range_wf(#[trigger] self.params@[i], n)
        &&& match self.trailing {
            Some(t) => range_wf(t, n),
            None => true,
        }
    }
}

/// First occurrence of `b` in `v` at or after `from`, or `v.len()`.
pub fn find_byte(v: &[u8], from: usize, b: u8) -> (r: usize)
    requires
        from <= v@.len(),
    ensures
        r == find_from(v@, from as int, b),
        from <= r <= v@.len(),
        r < v@.len() ==> v@[r as int] == b,
{
    let mut i: usize = from;
    while i < v.len()
        invariant
            from <= i <= v@.len(),
            find_from(v@, from as int, b) == find_from(v@, i as int, b),
        decreases v@.len() - i,
    {
        if v[i] == b {
            return i;
        }
        i = i + 1;
    }
    i
}

/// Whether two byte slices hold the same bytes.
pub fn bytes_eq(a: &[u8], b: &[u8]) -> (r: bool)
    ensures
        r == (a@ == b@),
{
    if a.len() != b.len() {
        return false;
    }
    let mut i: usize = 0;
    while i < a.len()
        invariant
            0 <= i <= a@.len(),
            a@.len() == b@.len(),
            forall|k: int| 0 <= k < i ==> a@[k] == b@[k],
        decreases a@.len() - i,
    {
        if a[i] != b[i] {
            assert(a@ != b@);
            return false;
        }
        i = i + 1;
    }
    proof {
        assert(a@ =~= b@);
    }
    true
}

/// Tag ranges for the section `line[lo..hi]`, each offset absolute in
/// `line`.
fn parse_tags_ranges(line: &[u8], lo: usize, hi: usize) -> (r: Vec<TagRange>)
    requires
        lo <= hi <= line@.len(),
    ensures
        forall|i: int|
            0 <= i < r@.len() ==> range_wf(#[trigger] r@[i].key, line@.len() as int) && range_wf(
                r@[i].value,
                line@.len() as int,
            ),
        tags_view(line@, r@) == parse_tags(line@.subrange(lo as int, hi as int)),
    decreases hi - lo,
{
    let ghost s = line@.subrange(lo as int, hi as int);
    if lo >= hi {
        let r = Vec::new();
        proof {
            assert(tags_view(line@, r@) =~= parse_tags(s));
        }
        r
    } else {
        let sub = slice_subrange(line, lo, hi);
        let semi = find_byte(sub, 0, SEMI);
        let item = slice_subrange(sub, 0, semi);
        let eq = find_byte(item, 0, EQUALS);
        let t = if eq == item.len() {
            TagRange {
                key: Range { start: lo, end: lo + semi },
                value: Range { start: lo + semi, end: lo + semi },
            }
        } else {
            TagRange {
                key: Range { start: lo, end: lo + eq },
                value: Range { start: lo + eq + 1, end: lo + semi },
            }
        };
        proof {
            assert(range_seq(line@, t.key) =~= parse_tag_item(s.subrange(0, semi as int)).0);
            assert(range_seq(line@, t.value) =~= parse_tag_item(s.subrange(0, semi as int)).1);
        }
        let mut rest: Vec<TagRange> = if lo + semi == hi {
            Vec::new()
        } else {
            parse_tags_ranges(line, lo + semi + 1, hi)
        };
        proof {
            if lo + semi < hi {
                assert(line@.subrange(lo + semi + 1, hi as int) =~= s.subrange(
                    semi + 1,
                    s.len() as int,
                ));
            }
        }
        rest.insert(0, t);
        proof {
            if lo + semi == hi {
                assert(tags_view(line@, rest@) =~= parse_tags(s));
            } else {
                assert(tags_view(line@, rest@) =~= parse_tags(s));
            }
        }
        rest
    }
}

/// Prefix ranges for `line[lo..hi]`, offsets absolute in `line`.
fn parse_prefix_ranges(line: &[u8], lo: usize, hi: usize) -> (r: PrefixRanges)
    requires
        lo <= hi <= line@.len(),
    ensures
        range_wf(r.nick, line@.len() as int),
        match r.user {
            Some(u) => range_wf(u, line@.len() as int),
            None => true,
        },
        match r.host {
            Some(h) => range_wf(h, line@.len() as int),
            None => true,
        },
        ({
            let spec = parse_prefix(line@.subrange(lo as int, hi as int));
            &&& range_seq(line@, r.nick) == spec.0
            &&& match (r.user, spec.1) {
                (Some(u), Some(su)) => range_seq(line@, u) == su,
                (None, None) => true,
                _ => false,
            }
            &&& match (r.host, spec.2) {
                (Some(h), Some(sh)) => range_seq(line@, h) == sh,
                (None, None) => true,
                _ => false,
            }
        }),
{
    let ghost p = line@.subrange(lo as int, hi as int);
    let sub = slice_subrange(line, lo, hi);
    let at = find_byte(sub, 0, AT);
    let host = if at == sub.len() {
        None
    } else {
        Some(Range { start: lo + at + 1, end: hi })
    };
    let pre = slice_subrange(sub, 0, at);
    let bang = find_byte(pre, 0, BANG);
    let r = if bang == pre.len() {
        PrefixRanges { nick: Range { start: lo, end: lo + at }, user: None, host }
    } else {
        PrefixRanges {
            nick: Range { start: lo, end: lo + bang },
            user: Some(Range { start: lo + bang + 1, end: lo + at }),
            host,
        }
    };
    proof {
        assert(pre@ =~= p.subrange(0, at as int));
        let spec = parse_prefix(p);
        assert(range_seq(line@, r.nick) =~= spec.0);
        match (r.user, spec.1) {
            (Some(u), Some(su)) => assert(range_seq(line@, u) =~= su),
            _ => (),
        }
        match (r.host, spec.2) {
            (Some(h), Some(sh)) => assert(range_seq(line@, h) =~= sh),
            _ => (),
        }
    }
    r
}

/// Middle-parameter and trailing ranges for `line[lo..hi]`, offsets
/// absolute in `line`.
fn parse_params_ranges(line: &[u8], lo: usize, hi: usize) -> (r: (Vec<Range>, Option<Range>))
    requires
        lo <= hi <= line@.len(),
    ensures
        forall|i: int| 0 <= i < r.0@.len() ==> range_wf(#[trigger] r.0@[i], line@.len() as int),
        ranges_view(line@, r.0@) == parse_params(line@.subrange(lo as int, hi as int)).0,
        match r.1 {
            Some(t) => range_wf(t, line@.len() as int) && parse_params(
                line@.subrange(lo as int, hi as int),
            ).1 == Some(range_seq(line@, t)),
            None => parse_params(line@.subrange(lo as int, hi as int)).1 is None,
        },
    decreases hi - lo,
{
    let ghost s = line@.subrange(lo as int, hi as int);
    if lo >= hi {
        let r: Vec<Range> = Vec::new();
        proof {
            assert(ranges_view(line@, r@) =~= parse_params(s).0);
        }
        (r, None)
    } else {
        let sub = slice_subrange(line, lo, hi);
        if sub[0] == COLON {
            let t = Range { start: lo + 1, end: hi };
            proof {
                assert(range_seq(line@, t) =~= s.subrange(1, s.len() as int));
                let r0: Seq<Range> = Seq::empty();
                assert(ranges_view(line@, r0) =~= parse_params(s).0);
            }
            (Vec::new(), Some(t))
        } else {
            let sp = find_byte(sub, 0, SPACE);
            let tok = Range { start: lo, end: lo + sp };
            proof {
                assert(range_seq(line@, tok) =~= s.subrange(0, sp as int));
            }
            if lo + sp == hi {
                let mut r: Vec<Range> = Vec::new();
                r.push(tok);
                proof {
                    assert(ranges_view(line@, r@) =~= parse_params(s).0);
                }
                (r, None)
            } else {
                let (mut ps, tr) = parse_params_ranges(line, lo + sp + 1, hi);
                proof {
                    assert(line@.subrange(lo + sp + 1, hi as int) =~= s.subrange(
                        sp + 1,
                        s.len() as int,
                    ));
                }
                ps.insert(0, tok);
                proof {
                    assert(ranges_view(line@, ps@) =~= parse_params(s).0);
                }
                (ps, tr)
            }
        }
    }
}

/// The value of the first tag whose key is `key`, or `None`.
pub open spec fn tag_lookup(tags: Seq<(Seq<u8>, Seq<u8>)>, key: Seq<u8>) -> Option<Seq<u8>>
    decreases tags.len(),
{
    if tags.len() == 0 {
        None
    } else if tags[0].0 == key {
        Some(tags[0].1)
    } else {
        tag_lookup(tags.subrange(1, tags.len() as int), key)
    }
}

impl RawMessage {
    /// The command token.
    pub fn command(&self) -> (r: &[u8])
        requires
            self.wf(),
        ensures
            r@ == self@.command,
    {
        slice_subrange(self.buf.as_slice(), self.command.start, self.command.end)
    }

    /// How many middle parameters the message has.
    pub fn params_len(&self) -> (n: usize)
        ensures
            n == self@.params.len(),
    {
        self.params.len()
    }

    /// The `i`-th middle parameter.
    pub fn param(&self, i: usize) -> (r: &[u8])
        requires
            self.wf(),
            i < self@.params.len(),
        ensures
            r@ == self@.params[i as int],
    {
        let rg = self.params[i];
        slice_subrange(self.buf.as_slice(), rg.start, rg.end)
    }

    /// The trailing parameter, when the message has one.
    pub fn trailing(&self) -> (r: Option<&[u8]>)
        requires
            self.wf(),
        ensures
            match r {
                Some(t) => self@.trailing == Some(t@),
                None => self@.trailing is None,
            },
    {
        match self.trailing {
            Some(rg) => Some(slice_subrange(self.buf.as_slice(), rg.start, rg.end)),
            None => None,
        }
    }

    /// The prefix nick, when the message has a prefix.
    pub fn nick(&self) -> (r: Option<&[u8]>)
        requires
            self.wf(),
        ensures
            match r {
                Some(n) => self@.nick == Some(n@),
                None => self@.nick is None,
            },
    {
        match self.prefix {
            Some(p) => Some(slice_subrange(self.buf.as_slice(), p.nick.start, p.nick.end)),
            None => None,
        }
    }

    /// The prefix user, when `!user` was present.
    pub fn user_part(&self) -> (r: Option<&[u8]>)
        requires
            self.wf(),
        ensures
            match r {
                Some(u) => self@.user == Some(u@),
                None => self@.user is None,
            },
    {
        match self.prefix {
            Some(p) => match p.user {
                Some(u) => Some(slice_subrange(self.buf.as_slice(), u.start, u.end)),
                None => None,
            },
            None => None,
        }
    }

    /// The prefix host, when `@host` was present.
    pub fn host_part(&self) -> (r: Option<&[u8]>)
        requires
            self.wf(),
        ensures
            match r {
                Some(h) => self@.host == Some(h@),
                None => self@.host is None,
            },
    {
        match self.prefix {
            Some(p) => match p.host {
                Some(h) => Some(slice_subrange(self.buf.as_slice(), h.start, h.end)),
                None => None,
            },
            None => None,
        }
    }

    /// A second message with the same buffer and the same ranges.
    pub fn duplicate(&self) -> (r: RawMessage)
        requires
            self.wf(),
        ensures
            r.wf(),
            r@ == self@,
    {
        let buf = vstd::slice::slice_to_vec(self.buf.as_slice());
        let mut tags: Vec<TagRange> = Vec::new();
        let mut i: usize = 0;
        while i < self.tags.len()
            invariant
                0 <= i <= self.tags@.len(),
                tags@ == self.tags@.subrange(0, i as int),
            decreases self.tags@.len() - i,
        {
            tags.push(self.tags[i]);
            proof {
                assert(self.tags@.subrange(0, i as int).push(self.tags@[i as int])
                    =~= self.tags@.subrange(0, i + 1));
            }
            i = i + 1;
        }
        proof {
            assert(self.tags@.subrange(0, self.tags@.len() as int) =~= self.tags@);
        }
        let mut params: Vec<Range> = Vec::new();
        let mut j: usize = 0;
        while j < self.params.len()
            invariant
                0 <= j <= self.params@.len(),
                params@ == self.params@.subrange(0, j as int),
            decreases self.params@.len() - j,
        {
            params.push(self.params[j]);
            proof {
                assert(self.params@.subrange(0, j as int).push(self.params@[j as int])
                    =~= self.params@.subrange(0, j + 1));
            }
            j = j + 1;
        }
        proof {
            assert(self.params@.subrange(0, self.params@.len() as int) =~= self.params@);
        }
        RawMessage {
            buf,
            tags,
            prefix: self.prefix,
            command: self.command,
            params,
            trailing: self.trailing,
        }
    }

    /// How many tags the message carries.
    pub fn tags_len(&self) -> (n: usize)
        ensures
            n == self@.tags.len(),
    {
        self.tags.len()
    }

    /// The value of the first tag named `key`; deferred lookup over the
    /// recorded ranges, nothing is materialized at parse time.
    pub fn tag(&self, key: &[u8]) -> (r: Option<&[u8]>)
        requires
            self.wf(),
        ensures
            match r {
                Some(v) => tag_lookup(self@.tags, key@) == Some(v@),
                None => tag_lookup(self@.tags, key@) is None,
            },
    {
        let mut i: usize = 0;
        proof {
            assert(self@.tags.subrange(0, self@.tags.len() as int) =~= self@.tags);
        }
        while i < self.tags.len()
            invariant
                self.wf(),
                0 <= i <= self.tags@.len(),
                tag_lookup(self@.tags, key@) == tag_lookup(
                    self@.tags.subrange(i as int, self@.tags.len() as int),
                    key@,
                ),
            decreases self.tags@.len() - i,
        {
            let t = self.tags[i];
            let k = slice_subrange(self.buf.as_slice(), t.key.start, t.key.end);
            let ghost rest = self@.tags.subrange(i as int, self@.tags.len() as int);
            if bytes_eq(k, key) {
                proof {
                    assert(rest[0].0 == key@);
                }
                return Some(slice_subrange(self.buf.as_slice(), t.value.start, t.value.end));
            }
            proof {
                assert(rest.subrange(1, rest.len() as int) =~= self@.tags.subrange(
                    i + 1,
                    self@.tags.len() as int,
                ));
            }
            i = i + 1;
        }
        None
    }
}

impl RawMessage {
    /// Parse one full line (terminator already removed) into a message
    /// backed by an owned copy of the line.  `EmptyMessage` is returned
    /// exactly when the line holds no command token.
    #[verifier::rlimit(60)]
    pub fn parse(line: &[u8]) -> (r: Result<RawMessage, DecodeError>)
        ensures
            match r {
                Ok(raw) => raw.wf() && parse_line(line@) == Some(raw@),
                Err(e) => parse_line(line@) is None && e == DecodeError::EmptyMessage,
            },
    {
        let mut tags: Vec<TagRange> = Vec::new();
        let mut pos: usize = 0;
        if line.len() > 0 && line[0] == AT {
            let sp = find_byte(line, 1, SPACE);
            tags = parse_tags_ranges(line, 1, sp);
            pos = if sp == line.len() {
                sp
            } else {
                sp + 1
            };
        }
        let ghost rest1 = split_off_tags(line@).1;
        proof {
            assert(split_off_tags(line@).0 == tags_view(line@, tags@));
            assert(rest1 =~= line@.subrange(pos as int, line@.len() as int));
        }
        let rest1s = slice_subrange(line, pos, line.len());
        let mut prefix: Option<PrefixRanges> = None;
        let mut pos2: usize = pos;
        if rest1s.len() > 0 && rest1s[0] == COLON {
            let psp = find_byte(rest1s, 1, SPACE);
            prefix = Some(parse_prefix_ranges(line, pos + 1, pos + psp));
            pos2 = if psp == rest1s.len() {
                pos + psp
            } else {
                pos + psp + 1
            };
            proof {
                assert(line@.subrange(pos + 1, pos + psp) =~= rest1.subrange(
                    1,
                    find_from(rest1, 1, SPACE),
                ));
            }
        }
        let ghost rest2 = split_off_prefix(rest1).1;
        proof {
            assert(rest2 =~= line@.subrange(pos2 as int, line@.len() as int));
        }
        let rest2s = slice_subrange(line, pos2, line.len());
        let cmd_end = find_byte(rest2s, 0, SPACE);
        if cmd_end == 0 || rest2s[0] == COLON {
            proof {
                assert(rest2.subrange(0, find_from(rest2, 0, SPACE)).len() == 0 || rest2.subrange(
                    0,
                    find_from(rest2, 0, SPACE),
                )[0] == COLON);
            }
            return Err(DecodeError::EmptyMessage);
        }
        let command = Range { start: pos2, end: pos2 + cmd_end };
        proof {
            assert(range_seq(line@, command) =~= rest2.subrange(0, find_from(rest2, 0, SPACE)));
        }
        let (params, trailing) = if cmd_end == rest2s.len() {
            let ghost e = Seq::<u8>::empty();
            proof {
                let r0: Seq<Range> = Seq::empty();
                assert(ranges_view(line@, r0) =~= parse_params(e).0);
            }
            (Vec::new(), None)
        } else {
            let (ps, tr) = parse_params_ranges(line, pos2 + cmd_end + 1, line.len());
            proof {
                assert(line@.subrange(pos2 + cmd_end + 1, line@.len() as int) =~= rest2.subrange(
                    find_from(rest2, 0, SPACE) + 1,
                    rest2.len() as int,
                ));
            }
            (ps, tr)
        };
        let buf = vstd::slice::slice_to_vec(line);
        let raw = RawMessage { buf, tags, prefix, command, params, trailing };
        proof {
            let spec = parse_line(line@).unwrap();
            assert(raw@.tags =~= spec.tags);
            assert(raw@.params =~= spec.params);
            assert(raw@ =~= spec);
        }
        Ok(raw)
    }
}

} // verus!
