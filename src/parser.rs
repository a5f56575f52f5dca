//! Tag blocks and chat messages: the part of the wire format that turns the
//! pieces of one protocol line into structured values.
use crate::text::{
    before_char, chars_of, find_char, find_char_in, find_pair, find_pair_in, has_char,
    lemma_find_pair_at, lemma_find_pair_bounds, push_char, split_bounds, split_on,
    string_of, text_eq, trim, trim_bounds,
};
use vstd::prelude::*;

verus! {

/// The character that `\` followed by `c` stands for in a tag value, for the
/// escapes this client decodes.
pub open spec fn escape_target(c: char) -> Option<char> {
    if c == ':' {
        Some(';')
    } else if c == 's' {
        Some(' ')
    } else if c == '\\' {
        Some('\\')
    } else {
        None
    }
}

/// A tag value with its escapes decoded in one left-to-right pass: `\:` is
/// `;`, `\s` is a space, `\\` is a backslash; every other character, a lone
/// backslash included, stands for itself.
pub open spec fn unescape(s: Seq<char>) -> Seq<char>
    decreases s.len(),
{
    if s.len() == 0 {
        s
    } else if s.len() >= 2 && s[0] == '\\' && escape_target(s[1]) is Some {
        seq![escape_target(s[1])->0] + unescape(s.subrange(2, s.len() as int))
    } else {
        seq![s[0]] + unescape(s.drop_first())
    }
}

fn escape_target_of(c: char) -> (r: Option<char>)
    ensures
        r == escape_target(c),
{
    if c == ':' {
        Some(';')
    } else if c == 's' {
        Some(' ')
    } else if c == '\\' {
        Some('\\')
    } else {
        None
    }
}

fn unescape_range(v: &[char], from: usize, to: usize) -> (r: String)
    requires
        from <= to <= v@.len(),
    ensures
        r@ == unescape(v@.subrange(from as int, to as int)),
{
    let mut r = String::new();
    let mut i: usize = from;
    while i < to
        invariant
            from <= i <= to <= v@.len(),
            r@ + unescape(v@.subrange(i as int, to as int)) == unescape(
                v@.subrange(from as int, to as int),
            ),
        decreases to - i,
    {
        let ghost rest = v@.subrange(i as int, to as int);
        if i + 1 < to && v[i] == '\\' {
            if let Some(d) = escape_target_of(v[i + 1]) {
                assert(rest.subrange(2, rest.len() as int) =~= v@.subrange(i + 2, to as int));
                let ghost tail = unescape(v@.subrange(i + 2, to as int));
                assert(r@.push(d) + tail =~= r@ + (seq![d] + tail));
                push_char(&mut r, d);
                i = i + 2;
                continue;
            }
        }
        assert(rest.drop_first() =~= v@.subrange(i + 1, to as int));
        let ghost tail = unescape(v@.subrange(i + 1, to as int));
        assert(r@.push(v@[i as int]) + tail =~= r@ + (seq![v@[i as int]] + tail));
        push_char(&mut r, v[i]);
        i = i + 1;
    }
    assert(v@.subrange(i as int, to as int) =~= Seq::<char>::empty());
    assert(r@ + Seq::<char>::empty() =~= r@);
    r
}

/// Decodes the escapes of a tag value (see `unescape`).
pub fn decode_irc_value(value: &str) -> (r: String)
    ensures
        r@ == unescape(value@),
{
    let v = chars_of(value);
    assert(v@.subrange(0, v@.len() as int) =~= v@);
    unescape_range(v.as_slice(), 0, v.len())
}

/// The map that a sequence of key/value pairs stands for: a later pair
/// replaces an earlier one with the same key.
pub open spec fn pairs_map(e: Seq<(String, String)>) -> Map<Seq<char>, Seq<char>>
    decreases e.len(),
{
    if e.len() == 0 {
        Map::empty()
    } else {
        pairs_map(e.drop_last()).insert(e.last().0@, e.last().1@)
    }
}

proof fn lemma_pairs_map_last(e: Seq<(String, String)>, k: Seq<char>, i: int)
    requires
        0 <= i < e.len(),
        e[i].0@ == k,
        forall|j: int| i < j < e.len() ==> (#[trigger] e[j]).0@ != k,
    ensures
        pairs_map(e).contains_key(k),
        pairs_map(e)[k] == e[i].1@,
    decreases e.len(),
{
    if i < e.len() - 1 {
        let d = e.drop_last();
        assert forall|j: int| i < j < d.len() implies (#[trigger] d[j]).0@ != k by {
            assert(d[j] == e[j]);
        }
        lemma_pairs_map_last(d, k, i);
    }
}

proof fn lemma_pairs_map_absent(e: Seq<(String, String)>, k: Seq<char>)
    requires
        forall|j: int| 0 <= j < e.len() ==> (#[trigger] e[j]).0@ != k,
    ensures
        !pairs_map(e).contains_key(k),
    decreases e.len(),
{
    if e.len() > 0 {
        let d = e.drop_last();
        assert forall|j: int| 0 <= j < d.len() implies (#[trigger] d[j]).0@ != k by {
            assert(d[j] == e[j]);
        }
        lemma_pairs_map_absent(d, k);
    }
}

/// The tags of one protocol line: a map from key to raw (still escaped) value.
pub struct Tags {
    entries: Vec<(String, String)>,
}

impl View for Tags {
    type V = Map<Seq<char>, Seq<char>>;

    closed spec fn view(&self) -> Map<Seq<char>, Seq<char>> {
        pairs_map(self.entries@)
    }
}

impl Tags {
    /// No tags.
    pub fn new() -> (r: Tags)
        ensures
            r@ == Map::<Seq<char>, Seq<char>>::empty(),
    {
        Tags { entries: Vec::new() }
    }

    /// Sets `key` to `value`, replacing an earlier value of `key`.
    pub fn insert(&mut self, key: String, value: String)
        ensures
            final(self)@ == old(self)@.insert(key@, value@),
    {
        self.entries.push((key, value));
        assert(self.entries@.drop_last() =~= old(self).entries@);
    }

    /// The value of `key`, if the tags hold it.
    pub fn get(&self, key: &str) -> (r: Option<String>)
        ensures
            match r {
                Some(v) => self@.contains_key(key@) && v@ == self@[key@],
                None => !self@.contains_key(key@),
            },
    {
        let k = key.to_owned();
        let mut i: usize = self.entries.len();
        while i > 0
            invariant
                i <= self.entries@.len(),
                k@ == key@,
                forall|j: int| i <= j < self.entries@.len() ==> (#[trigger] self.entries@[j]).0@ != key@,
            decreases i,
        {
            i = i - 1;
            if self.entries[i].0 == k {
                proof {
                    lemma_pairs_map_last(self.entries@, key@, i as int);
                }
                return Some(self.entries[i].1.clone());
            }
        }
        proof {
            lemma_pairs_map_absent(self.entries@, key@);
        }
        None
    }

    /// The key/value pairs in the order they were set; a later pair wins
    /// over an earlier one with the same key.
    pub fn pairs(&self) -> (r: &[(String, String)])
        ensures
            pairs_map(r@) == self@,
    {
        self.entries.as_slice()
    }
}

/// The map a list of `key=value` pieces stands for: a piece without `=` is
/// dropped, the key ends at the first `=`, and a later key wins.
pub open spec fn tag_piece_map(ps: Seq<Seq<char>>) -> Map<Seq<char>, Seq<char>>
    decreases ps.len(),
{
    if ps.len() == 0 {
        Map::empty()
    } else {
        let m = tag_piece_map(ps.drop_last());
        let p = ps.last();
        if has_char(p, '=') {
            m.insert(before_char(p, '='), p.subrange(find_char(p, '=') + 1, p.len() as int))
        } else {
            m
        }
    }
}

/// The tags of a raw tag segment: split on `;`, each piece on its first `=`.
pub open spec fn tags_of(s: Seq<char>) -> Map<Seq<char>, Seq<char>> {
    tag_piece_map(split_on(s, ';'))
}

pub(crate) fn tags_in(v: &[char], from: usize, to: usize) -> (r: Tags)
    requires
        from <= to <= v@.len(),
    ensures
        r@ == tags_of(v@.subrange(from as int, to as int)),
{
    let ghost pieces = split_on(v@.subrange(from as int, to as int), ';');
    let bounds = split_bounds(v, from, to, ';');
    let mut tags = Tags::new();
    let mut k: usize = 0;
    while k < bounds.len()
        invariant
            k <= bounds@.len() == pieces.len(),
            from <= to <= v@.len(),
            pieces == split_on(v@.subrange(from as int, to as int), ';'),
            forall|q: int|
                0 <= q < bounds@.len() ==> from <= (#[trigger] bounds@[q]).0 <= bounds@[q].1 <= to
                    && v@.subrange(bounds@[q].0 as int, bounds@[q].1 as int) == pieces[q],
            tags@ == tag_piece_map(pieces.subrange(0, k as int)),
        decreases bounds@.len() - k,
    {
        let (a, b) = bounds[k];
        let e = find_char_in(v, a, b, '=');
        let ghost p = v@.subrange(a as int, b as int);
        assert(pieces.subrange(0, k + 1).drop_last() =~= pieces.subrange(0, k as int));
        assert(pieces.subrange(0, k + 1).last() == p);
        if e < b {
            assert(p.subrange(0, e - a) =~= v@.subrange(a as int, e as int));
            assert(p.subrange(e - a + 1, p.len() as int) =~= v@.subrange(e + 1, b as int));
            let key = string_of(v, a, e);
            let value = string_of(v, e + 1, b);
            tags.insert(key, value);
        }
        k = k + 1;
    }
    assert(pieces.subrange(0, k as int) =~= pieces);
    tags
}

/// Splits a raw tag segment (`k1=v1;k2=v2`) into its tags. Values are kept
/// as they stand on the wire; `decode_irc_value` decodes one.
pub fn parse_tags(s: &str) -> (r: Tags)
    ensures
        r@ == tags_of(s@),
{
    let v = chars_of(s);
    assert(v@.subrange(0, v@.len() as int) =~= v@);
    tags_in(v.as_slice(), 0, v.len())
}

/// One chat message, as it is handed to the user interface.
pub struct ChatMessage {
    pub channel: String,
    pub username: String,
    pub display_name: String,
    pub text: String,
    pub color: Option<String>,
    pub badges: Vec<String>,
    pub emotes: Option<String>,
    pub id: Option<String>,
    pub ts: Option<String>,
}

/// The model of a `ChatMessage`.
pub struct MessageView {
    pub channel: Seq<char>,
    pub username: Seq<char>,
    pub display_name: Seq<char>,
    pub text: Seq<char>,
    pub color: Option<Seq<char>>,
    pub badges: Seq<Seq<char>>,
    pub emotes: Option<Seq<char>>,
    pub id: Option<Seq<char>>,
    pub ts: Option<Seq<char>>,
}

pub open spec fn opt_view(o: Option<String>) -> Option<Seq<char>> {
    match o {
        Some(s) => Some(s@),
        None => None,
    }
}

pub open spec fn opt_str_view(o: Option<&str>) -> Option<Seq<char>> {
    match o {
        Some(s) => Some(s@),
        None => None,
    }
}

impl View for ChatMessage {
    type V = MessageView;

    open spec fn view(&self) -> MessageView {
        MessageView {
            channel: self.channel@,
            username: self.username@,
            display_name: self.display_name@,
            text: self.text@,
            color: opt_view(self.color),
            badges: self.badges@.map_values(|b: String| b@),
            emotes: opt_view(self.emotes),
            id: opt_view(self.id),
            ts: opt_view(self.ts),
        }
    }
}

/// The decoded value of tag `k`, if the line carries it.
pub open spec fn tag_value(tags: Map<Seq<char>, Seq<char>>, k: Seq<char>) -> Option<Seq<char>> {
    if tags.contains_key(k) {
        Some(unescape(tags[k]))
    } else {
        None
    }
}

/// `None` stands in for an empty value.
pub open spec fn non_empty(o: Option<Seq<char>>) -> Option<Seq<char>> {
    match o {
        Some(v) => if v.len() > 0 {
            Some(v)
        } else {
            None
        },
        None => None,
    }
}

/// Badge names of the pieces of a `badges` tag: empty pieces are dropped and
/// each name loses its `/version` suffix.
pub open spec fn badge_list(ps: Seq<Seq<char>>) -> Seq<Seq<char>>
    decreases ps.len(),
{
    if ps.len() == 0 {
        seq![]
    } else {
        let r = badge_list(ps.drop_last());
        if ps.last().len() > 0 {
            r.push(before_char(ps.last(), '/'))
        } else {
            r
        }
    }
}

/// Badge names of a `badges` tag value such as `moderator/1,subscriber/12`.
pub open spec fn badge_names(b: Seq<char>) -> Seq<Seq<char>> {
    badge_list(split_on(b, ','))
}

/// The user name of a line's prefix (`nick!user@host`): what stands before
/// the first `!`, or `?` when the line has no prefix.
pub open spec fn username_of(prefix: Option<Seq<char>>) -> Seq<char> {
    match prefix {
        Some(p) => before_char(p, '!'),
        None => "?"@,
    }
}

/// The chat message of a `PRIVMSG` line with the given prefix, parameters
/// (`#chan :text`) and tags; none when the parameters lack the ` :`
/// separator.
pub open spec fn privmsg_of(
    prefix: Option<Seq<char>>,
    params: Seq<char>,
    tags: Map<Seq<char>, Seq<char>>,
) -> Option<MessageView> {
    let i = find_pair(params, ' ', ':');
    if i >= params.len() {
        None
    } else {
        let username = username_of(prefix);
        Some(
            MessageView {
                channel: trim(params.subrange(0, i)),
                username,
                display_name: match tag_value(tags, "display-name"@) {
                    Some(d) => d,
                    None => username,
                },
                text: params.subrange(i + 2, params.len() as int),
                color: non_empty(tag_value(tags, "color"@)),
                badges: match tag_value(tags, "badges"@) {
                    Some(b) => badge_names(b),
                    None => seq![],
                },
                emotes: non_empty(tag_value(tags, "emotes"@)),
                id: non_empty(tag_value(tags, "id"@)),
                ts: non_empty(tag_value(tags, "tmi-sent-ts"@)),
            },
        )
    }
}

fn tag(tags: &Tags, key: &str) -> (r: Option<String>)
    ensures
        opt_view(r) == tag_value(tags@, key@),
{
    match tags.get(key) {
        Some(v) => Some(decode_irc_value(v.as_str())),
        None => None,
    }
}

fn filled(o: Option<String>) -> (r: Option<String>)
    ensures
        opt_view(r) == non_empty(opt_view(o)),
{
    match o {
        Some(v) => if v.as_str().is_empty() {
            None
        } else {
            Some(v)
        },
        None => None,
    }
}

fn badges_of(b: &str) -> (r: Vec<String>)
    ensures
        r@.map_values(|s: String| s@) == badge_names(b@),
{
    let v = chars_of(b);
    let ghost whole = v@.subrange(0, v@.len() as int);
    assert(whole =~= v@);
    let ghost pieces = split_on(whole, ',');
    let bounds = split_bounds(v.as_slice(), 0, v.len(), ',');
    let mut out: Vec<String> = Vec::new();
    let mut k: usize = 0;
    while k < bounds.len()
        invariant
            k <= bounds@.len() == pieces.len(),
            pieces == split_on(v@.subrange(0, v@.len() as int), ','),
            forall|q: int|
                0 <= q < bounds@.len() ==> 0 <= (#[trigger] bounds@[q]).0 <= bounds@[q].1
                    <= v@.len() && v@.subrange(bounds@[q].0 as int, bounds@[q].1 as int)
                    == pieces[q],
            out@.map_values(|s: String| s@) == badge_list(pieces.subrange(0, k as int)),
        decreases bounds@.len() - k,
    {
        let (a, c) = bounds[k];
        let ghost p = v@.subrange(a as int, c as int);
        assert(pieces.subrange(0, k + 1).drop_last() =~= pieces.subrange(0, k as int));
        assert(pieces.subrange(0, k + 1).last() == p);
        if a < c {
            let slash = find_char_in(v.as_slice(), a, c, '/');
            assert(p.subrange(0, slash - a) =~= v@.subrange(a as int, slash as int));
            let name = string_of(v.as_slice(), a, slash);
            let ghost before = out@;
            out.push(name);
            assert(out@.map_values(|s: String| s@) =~= before.map_values(|s: String| s@).push(
                name@,
            ));
        }
        k = k + 1;
    }
    assert(pieces.subrange(0, k as int) =~= pieces);
    out
}

fn username_from(prefix: Option<&str>) -> (r: String)
    ensures
        r@ == username_of(opt_str_view(prefix)),
{
    match prefix {
        Some(p) => {
            let v = chars_of(p);
            let bang = find_char_in(v.as_slice(), 0, v.len(), '!');
            assert(v@.subrange(0, v@.len() as int) =~= v@);
            string_of(v.as_slice(), 0, bang)
        },
        None => "?".to_owned(),
    }
}

/// Builds the chat message of a `PRIVMSG` line from its prefix, its
/// parameters and its tags. Returns `None` when the parameters lack the ` :`
/// separator between channel and text.
pub fn parse_privmsg(prefix: Option<&str>, params: &str, tags: &Tags) -> (r: Option<ChatMessage>)
    ensures
        match r {
            Some(m) => privmsg_of(opt_str_view(prefix), params@, tags@) == Some(m@),
            None => privmsg_of(opt_str_view(prefix), params@, tags@) is None,
        },
{
    let v = chars_of(params);
    let n = v.len();
    let i = find_pair_in(v.as_slice(), 0, n, ' ', ':');
    assert(v@.subrange(0, n as int) =~= v@);
    if i >= n {
        return None;
    }
    proof {
        lemma_find_pair_bounds(v@, ' ', ':');
    }
    let (a, b) = trim_bounds(v.as_slice(), 0, i);
    let channel = string_of(v.as_slice(), a, b);
    let text = string_of(v.as_slice(), i + 2, n);
    let username = username_from(prefix);
    let display_name = match tag(tags, "display-name") {
        Some(d) => d,
        None => username.clone(),
    };
    let badges = match tag(tags, "badges") {
        Some(b) => badges_of(b.as_str()),
        None => Vec::new(),
    };
    let m = ChatMessage {
        channel,
        username,
        display_name,
        text,
        color: filled(tag(tags, "color")),
        badges,
        emotes: filled(tag(tags, "emotes")),
        id: filled(tag(tags, "id")),
        ts: filled(tag(tags, "tmi-sent-ts")),
    };
    assert(m@.badges =~= privmsg_of(opt_str_view(prefix), params@, tags@)->0.badges);
    Some(m)
}

/// The chat message of a line with the given command: only `PRIVMSG` lines
/// carry one (see `parse_privmsg`).
pub open spec fn message_of(
    prefix: Option<Seq<char>>,
    command: Seq<char>,
    params: Seq<char>,
    tags: Map<Seq<char>, Seq<char>>,
) -> Option<MessageView> {
    if command == "PRIVMSG"@ {
        privmsg_of(prefix, params, tags)
    } else {
        None
    }
}

/// Builds the chat message of a line from its prefix, command, parameters
/// and tags; `None` for any command but `PRIVMSG`, and for a `PRIVMSG`
/// without the ` :` separator.
pub fn parse_message(prefix: Option<&str>, command: &str, params: &str, tags: &Tags) -> (r: Option<
    ChatMessage,
>)
    ensures
        match r {
            Some(m) => message_of(opt_str_view(prefix), command@, params@, tags@) == Some(m@),
            None => message_of(opt_str_view(prefix), command@, params@, tags@) is None,
        },
{
    if text_eq(command, "PRIVMSG") {
        parse_privmsg(prefix, params, tags)
    } else {
        None
    }
}

/// Text without backslashes passes through decoding unchanged.
pub proof fn lemma_unescape_plain(a: Seq<char>, b: Seq<char>)
    requires
        forall|i: int| 0 <= i < a.len() ==> a[i] != '\\',
    ensures
        unescape(a + b) == a + unescape(b),
    decreases a.len(),
{
    if a.len() > 0 {
        let s = a + b;
        assert(s.drop_first() =~= a.drop_first() + b);
        lemma_unescape_plain(a.drop_first(), b);
        assert(s[0] == a[0]);
        assert(seq![a[0]] + (a.drop_first() + unescape(b)) =~= a + unescape(b));
    } else {
        assert(a + b =~= b);
        assert(a + unescape(b) =~= unescape(b));
    }
}

/// In a tag value, `\s` decodes to a space, `\\` to a single backslash and
/// `\:` to a semicolon; what follows is decoded on its own.
pub proof fn lemma_unescape_escapes(b: Seq<char>)
    ensures
        unescape(seq!['\\', 's'] + b) == seq![' '] + unescape(b),
        unescape(seq!['\\', '\\'] + b) == seq!['\\'] + unescape(b),
        unescape(seq!['\\', ':'] + b) == seq![';'] + unescape(b),
{
    assert((seq!['\\', 's'] + b).subrange(2, b.len() + 2 as int) =~= b);
    assert((seq!['\\', '\\'] + b).subrange(2, b.len() + 2 as int) =~= b);
    assert((seq!['\\', ':'] + b).subrange(2, b.len() + 2 as int) =~= b);
}

/// The optional fields of a chat message are `None` exactly when the line
/// lacks the tag or its value is empty: an empty string never stands in for
/// a missing tag.
pub proof fn lemma_missing_tag_is_none(
    prefix: Option<Seq<char>>,
    params: Seq<char>,
    tags: Map<Seq<char>, Seq<char>>,
)
    requires
        privmsg_of(prefix, params, tags) is Some,
    ensures
        ({
            let m = privmsg_of(prefix, params, tags)->0;
            &&& m.color is None <==> (!tags.contains_key("color"@) || unescape(
                tags["color"@],
            ).len() == 0)
            &&& m.emotes is None <==> (!tags.contains_key("emotes"@) || unescape(
                tags["emotes"@],
            ).len() == 0)
            &&& m.id is None <==> (!tags.contains_key("id"@) || unescape(tags["id"@]).len()
                == 0)
            &&& m.ts is None <==> (!tags.contains_key("tmi-sent-ts"@) || unescape(
                tags["tmi-sent-ts"@],
            ).len() == 0)
            &&& m.color matches Some(c) ==> c.len() > 0
            &&& m.emotes matches Some(e) ==> e.len() > 0
            &&& m.id matches Some(i) ==> i.len() > 0
            &&& m.ts matches Some(t) ==> t.len() > 0
        }),
{
}

/// Only `PRIVMSG` lines carry a chat message, and only when their
/// parameters hold the ` :` separator: any other command, and a `PRIVMSG`
/// without the separator, give `None`.
pub proof fn lemma_only_privmsg_carries_message(
    prefix: Option<Seq<char>>,
    command: Seq<char>,
    params: Seq<char>,
    tags: Map<Seq<char>, Seq<char>>,
)
    requires
        command != "PRIVMSG"@ || forall|j: int|
            0 <= j && j + 1 < params.len() ==> !(#[trigger] params[j] == ' ' && params[j + 1] == ':'),
    ensures
        message_of(prefix, command, params, tags) is None,
{
    if command == "PRIVMSG"@ {
        lemma_find_pair_at(params, ' ', ':', params.len() as int);
    }
}

} // verus!
