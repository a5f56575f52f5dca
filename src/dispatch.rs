//! From raw socket text to events: a frame is cut into lines (a partial last
//! line waits for the next frame), each line into tags, prefix, command and
//! parameters, and each command is routed to what it means for the client.
use crate::parser::{
    opt_view, parse_privmsg, privmsg_of, tag_value, tags_in, tags_of, ChatMessage, MessageView,
    Tags,
};
use crate::text::{
    chars_of, find_char, find_char_in, has_char, is_ws, lemma_find_char_at,
    lemma_find_char_concat, lemma_find_pair_at, lemma_no_char_concat, lemma_split_on_len,
    lemma_trim_plain, split_bounds, split_on, starts_with, string_of, text_eq, trim, trim_bounds,
};
use vstd::prelude::*;
use vstd::string::StringExecFns;

verus! {

/// The tag segment of a line (after a leading `@`, up to the first space)
/// and what follows it, trimmed; a line without `@` has no tag segment.
pub open spec fn split_tags(line: Seq<char>) -> (Option<Seq<char>>, Seq<char>) {
    if line.len() > 0 && line[0] == '@' {
        let t = line.drop_first();
        let i = find_char(t, ' ');
        (Some(t.subrange(0, i)), trim(t.subrange(i, t.len() as int)))
    } else {
        (None, line)
    }
}

/// The prefix (after a leading `:`, up to the first space) and what follows
/// it, trimmed; a rest without `:` has no prefix.
pub open spec fn split_prefix(rest: Seq<char>) -> (Option<Seq<char>>, Seq<char>) {
    if rest.len() > 0 && rest[0] == ':' {
        let r = rest.drop_first();
        let i = find_char(r, ' ');
        (Some(r.subrange(0, i)), trim(r.subrange(i, r.len() as int)))
    } else {
        (None, rest)
    }
}

/// The command (up to the first space) and the parameters (after it, empty
/// when there is no space).
pub open spec fn split_command(rest: Seq<char>) -> (Seq<char>, Seq<char>) {
    let j = find_char(rest, ' ');
    if j < rest.len() {
        (rest.subrange(0, j), rest.subrange(j + 1, rest.len() as int))
    } else {
        (rest, seq![])
    }
}

/// The model of a decomposed line.
pub struct LineView {
    pub tags: Map<Seq<char>, Seq<char>>,
    pub prefix: Option<Seq<char>>,
    pub command: Seq<char>,
    pub params: Seq<char>,
}

/// A protocol line cut into tags, prefix, command and parameters.
pub open spec fn line_of(line: Seq<char>) -> LineView {
    let (seg, r1) = split_tags(line);
    let (prefix, r2) = split_prefix(r1);
    let (command, params) = split_command(r2);
    LineView {
        tags: match seg {
            Some(s) => tags_of(s),
            None => Map::empty(),
        },
        prefix,
        command,
        params,
    }
}

/// One protocol line, cut into its parts.
pub struct Line {
    pub tags: Tags,
    pub prefix: Option<String>,
    pub command: String,
    pub params: String,
}

impl View for Line {
    type V = LineView;

    open spec fn view(&self) -> LineView {
        LineView {
            tags: self.tags@,
            prefix: opt_view(self.prefix),
            command: self.command@,
            params: self.params@,
        }
    }
}

/// Cuts a line into tags, prefix, command and parameters: a leading `@`
/// opens a tag block that ends at the first space, then a leading `:` opens
/// a prefix that ends at the next space, then the command runs to the next
/// space and the parameters are the rest. Tags, prefix or both may be absent.
pub fn split_line(line: &str) -> (r: Line)
    ensures
        r@ == line_of(line@),
{
    let v = chars_of(line);
    let n = v.len();
    let ghost s = v@;
    // tags
    let mut start: usize = 0;
    let mut end: usize = n;
    let tags = if n > 0 && v[0] == '@' {
        let sp = find_char_in(v.as_slice(), 1, n, ' ');
        assert(s.drop_first() =~= s.subrange(1, n as int));
        let tags = tags_in(v.as_slice(), 1, sp);
        assert(s.subrange(1, sp as int) =~= s.drop_first().subrange(0, sp - 1));
        let (a, b) = trim_bounds(v.as_slice(), sp, n);
        assert(s.subrange(sp as int, n as int) =~= s.drop_first().subrange(sp - 1, n - 1));
        start = a;
        end = b;
        tags
    } else {
        assert(s.subrange(0, n as int) =~= s);
        Tags::new()
    };
    let ghost r1 = split_tags(s).1;
    assert(s.subrange(start as int, end as int) == r1);
    // prefix
    let prefix = if start < end && v[start] == ':' {
        let sp = find_char_in(v.as_slice(), start + 1, end, ' ');
        assert(r1.drop_first() =~= s.subrange(start + 1, end as int));
        let p = string_of(v.as_slice(), start + 1, sp);
        assert(s.subrange(start + 1, sp as int) =~= r1.drop_first().subrange(0, sp - start - 1));
        let (a, b) = trim_bounds(v.as_slice(), sp, end);
        assert(s.subrange(sp as int, end as int) =~= r1.drop_first().subrange(
            sp - start - 1,
            end - start - 1,
        ));
        start = a;
        end = b;
        Some(p)
    } else {
        None
    };
    let ghost r2 = split_prefix(r1).1;
    assert(s.subrange(start as int, end as int) == r2);
    // command and parameters
    let sp = find_char_in(v.as_slice(), start, end, ' ');
    let command = string_of(v.as_slice(), start, sp);
    let params = if sp < end {
        string_of(v.as_slice(), sp + 1, end)
    } else {
        String::new()
    };
    assert(s.subrange(start as int, sp as int) =~= r2.subrange(0, sp - start));
    assert(sp < end ==> s.subrange(sp + 1, end as int) =~= r2.subrange(
        sp - start + 1,
        r2.len() as int,
    ));
    assert(sp == end ==> s.subrange(start as int, sp as int) =~= r2);
    let r = Line { tags, prefix, command, params };
    assert(r@ == line_of(line@));
    r
}

/// What one line means for the client.
pub enum Event {
    /// A keepalive ping: the reply line to send back.
    Pong(String),
    /// A chat message for the user interface.
    Message(ChatMessage),
    /// A user notice: its tags, for the user interface.
    UserNotice(Tags),
    /// A chat or message deletion: the raw line, for the user interface.
    ClearChat(String),
    /// The server asks the client to reconnect from scratch.
    Reconnect,
    /// The server welcomed the client.
    Ready,
}

/// The model of an `Event`.
pub enum EventView {
    Pong(Seq<char>),
    Message(MessageView),
    UserNotice(Map<Seq<char>, Seq<char>>),
    ClearChat(Seq<char>),
    Reconnect,
    Ready,
}

impl View for Event {
    type V = EventView;

    open spec fn view(&self) -> EventView {
        match self {
            Event::Pong(l) => EventView::Pong(l@),
            Event::Message(m) => EventView::Message(m@),
            Event::UserNotice(t) => EventView::UserNotice(t@),
            Event::ClearChat(l) => EventView::ClearChat(l@),
            Event::Reconnect => EventView::Reconnect,
            Event::Ready => EventView::Ready,
        }
    }
}

/// The event of one (trimmed, non-empty) line, or none when the line is to
/// be ignored: a `PING <server>` line asks for `PONG <server>`; otherwise the
/// command decides.
pub open spec fn event_of(line: Seq<char>) -> Option<EventView> {
    if starts_with(line, "PING "@) {
        Some(EventView::Pong("PONG "@ + line.subrange(5, line.len() as int)))
    } else {
        let l = line_of(line);
        if l.command == "PRIVMSG"@ {
            match privmsg_of(l.prefix, l.params, l.tags) {
                Some(m) => Some(EventView::Message(m)),
                None => None,
            }
        } else if l.command == "USERNOTICE"@ {
            Some(EventView::UserNotice(l.tags))
        } else if l.command == "CLEARCHAT"@ || l.command == "CLEARMSG"@ {
            Some(EventView::ClearChat(line))
        } else if l.command == "RECONNECT"@ {
            Some(EventView::Reconnect)
        } else if l.command == "001"@ {
            Some(EventView::Ready)
        } else {
            None
        }
    }
}

pub open spec fn opt_event_view(o: Option<Event>) -> Option<EventView> {
    match o {
        Some(e) => Some(e@),
        None => None,
    }
}

fn is_ping(v: &Vec<char>) -> (r: bool)
    ensures
        r == starts_with(v@, "PING "@),
{
    proof {
        reveal_strlit("PING ");
    }
    let r = v.len() >= 5 && v[0] == 'P' && v[1] == 'I' && v[2] == 'N' && v[3] == 'G' && v[4]
        == ' ';
    assert(r ==> v@.subrange(0, 5) =~= "PING "@);
    assert(v@.len() >= 5 && v@.subrange(0, 5) == "PING "@ ==> v@[0] == v@.subrange(0, 5)[0] && v@[1]
        == v@.subrange(0, 5)[1] && v@[2] == v@.subrange(0, 5)[2] && v@[3] == v@.subrange(0, 5)[3]
        && v@[4] == v@.subrange(0, 5)[4]);
    r
}

/// Routes one line: a keepalive ping yields its reply; a chat message, a
/// user notice, a chat clearing, a reconnect request or the welcome yields
/// its event; anything else is ignored (`None`).
pub fn dispatch_line(line: &str) -> (r: Option<Event>)
    ensures
        opt_event_view(r) == event_of(line@),
{
    let v = chars_of(line);
    proof {
        reveal_strlit("PING ");
    }
    if is_ping(&v) {
        let mut reply = "PONG ".to_owned();
        let rest = string_of(v.as_slice(), 5, v.len());
        reply.append(rest.as_str());
        return Some(Event::Pong(reply));
    }
    let l = split_line(line);
    if text_eq(l.command.as_str(), "PRIVMSG") {
        let prefix = match &l.prefix {
            Some(p) => Some(p.as_str()),
            None => None,
        };
        match parse_privmsg(prefix, l.params.as_str(), &l.tags) {
            Some(m) => Some(Event::Message(m)),
            None => None,
        }
    } else if text_eq(l.command.as_str(), "USERNOTICE") {
        Some(Event::UserNotice(l.tags))
    } else if text_eq(l.command.as_str(), "CLEARCHAT") || text_eq(l.command.as_str(), "CLEARMSG") {
        Some(Event::ClearChat(line.to_owned()))
    } else if text_eq(l.command.as_str(), "RECONNECT") {
        Some(Event::Reconnect)
    } else if text_eq(l.command.as_str(), "001") {
        Some(Event::Ready)
    } else {
        None
    }
}

/// The lines kept of a list of complete lines: each is trimmed, and those
/// left empty are dropped.
pub open spec fn kept_lines(ps: Seq<Seq<char>>) -> Seq<Seq<char>>
    decreases ps.len(),
{
    if ps.len() == 0 {
        seq![]
    } else {
        let r = kept_lines(ps.drop_last());
        let l = trim(ps.last());
        if l.len() > 0 {
            r.push(l)
        } else {
            r
        }
    }
}

/// Socket text that is not a complete line yet, waiting for the rest.
pub struct LineBuffer {
    pending: String,
}

impl View for LineBuffer {
    type V = Seq<char>;

    closed spec fn view(&self) -> Seq<char> {
        self.pending@
    }
}

impl LineBuffer {
    /// A buffer that holds nothing.
    pub fn new() -> (r: LineBuffer)
        ensures
            r@ == Seq::<char>::empty(),
    {
        LineBuffer { pending: String::new() }
    }

    /// Takes one frame of socket text and returns, in order, the complete
    /// lines that the held text and the frame make (trimmed, empty ones
    /// dropped). What follows the last newline is held for the next frame.
    pub fn push_frame(&mut self, chunk: &str) -> (r: Vec<String>)
        ensures
            ({
                let ps = split_on(old(self)@ + chunk@, '\n');
                &&& final(self)@ == ps.last()
                &&& r@.map_values(|l: String| l@) == kept_lines(ps.drop_last())
            }),
    {
        let mut v = chars_of(self.pending.as_str());
        let mut w = chars_of(chunk);
        v.append(&mut w);
        let n = v.len();
        let ghost pieces = split_on(v@.subrange(0, n as int), '\n');
        assert(v@.subrange(0, n as int) =~= old(self)@ + chunk@);
        proof {
            lemma_split_on_len(v@.subrange(0, n as int), '\n');
        }
        let bounds = split_bounds(v.as_slice(), 0, n, '\n');
        let last = bounds.len() - 1;
        let mut out: Vec<String> = Vec::new();
        let mut k: usize = 0;
        while k < last
            invariant
                k <= last == bounds@.len() - 1,
                bounds@.len() == pieces.len(),
                n == v@.len(),
                forall|q: int|
                    0 <= q < bounds@.len() ==> 0 <= (#[trigger] bounds@[q]).0 <= bounds@[q].1 <= n
                        && v@.subrange(bounds@[q].0 as int, bounds@[q].1 as int) == pieces[q],
                out@.map_values(|l: String| l@) == kept_lines(pieces.subrange(0, k as int)),
            decreases last - k,
        {
            let (a, b) = bounds[k];
            assert(pieces.subrange(0, k + 1).drop_last() =~= pieces.subrange(0, k as int));
            let (c, d) = trim_bounds(v.as_slice(), a, b);
            if c < d {
                let l = string_of(v.as_slice(), c, d);
                let ghost before = out@;
                out.push(l);
                assert(out@.map_values(|l: String| l@) =~= before.map_values(|l: String| l@).push(
                    l@,
                ));
            }
            k = k + 1;
        }
        assert(pieces.subrange(0, last as int) =~= pieces.drop_last());
        let (a, b) = bounds[last];
        self.pending = string_of(v.as_slice(), a, b);
        out
    }
}

proof fn lemma_tags_part(tg: Seq<char>, r1: Seq<char>)
    requires
        !has_char(tg, ' '),
        r1.len() > 0,
        !is_ws(r1[0]),
        !is_ws(r1.last()),
    ensures
        split_tags(seq!['@'] + (tg + (seq![' '] + r1))) == (Some(tg), r1),
{
    let t = tg + (seq![' '] + r1);
    let line = seq!['@'] + t;
    assert(line.drop_first() =~= t);
    lemma_find_char_concat(tg, seq![' '] + r1, ' ');
    assert(t.subrange(0, tg.len() as int) =~= tg);
    assert(t.subrange(tg.len() as int, t.len() as int) =~= seq![' '] + r1);
    lemma_trim_plain(r1);
}

proof fn lemma_prefix_part(pre: Seq<char>, r2: Seq<char>)
    requires
        !has_char(pre, ' '),
        r2.len() > 0,
        !is_ws(r2[0]),
        !is_ws(r2.last()),
    ensures
        split_prefix(seq![':'] + (pre + (seq![' '] + r2))) == (Some(pre), r2),
{
    let r = pre + (seq![' '] + r2);
    let r1 = seq![':'] + r;
    assert(r1.drop_first() =~= r);
    lemma_find_char_concat(pre, seq![' '] + r2, ' ');
    assert(r.subrange(0, pre.len() as int) =~= pre);
    assert(r.subrange(pre.len() as int, r.len() as int) =~= seq![' '] + r2);
    lemma_trim_plain(r2);
}

proof fn lemma_command_part(cmd: Seq<char>, params: Seq<char>)
    requires
        !has_char(cmd, ' '),
    ensures
        split_command(cmd + (seq![' '] + params)) == (cmd, params),
{
    let r2 = cmd + (seq![' '] + params);
    lemma_find_char_concat(cmd, seq![' '] + params, ' ');
    assert(r2.subrange(0, cmd.len() as int) =~= cmd);
    assert(r2.subrange(cmd.len() + 1 as int, r2.len() as int) =~= params);
}

proof fn lemma_privmsg_part(
    nick: Seq<char>,
    user: Seq<char>,
    chan: Seq<char>,
    text: Seq<char>,
    tags: Map<Seq<char>, Seq<char>>,
)
    requires
        !has_char(nick, '!'),
        forall|i: int| 0 <= i < chan.len() ==> !is_ws(#[trigger] chan[i]),
    ensures
        ({
            let m = privmsg_of(
                Some(nick + (seq!['!'] + user)),
                chan + (seq![' ', ':'] + text),
                tags,
            );
            &&& m is Some
            &&& m->0.username == nick
            &&& m->0.channel == chan
            &&& m->0.text == text
        }),
{
    let params = chan + (seq![' ', ':'] + text);
    assert forall|j: int| 0 <= j < chan.len() && j + 1 < params.len() implies !(
    #[trigger] params[j] == ' ' && params[j + 1] == ':') by {
        assert(params[j] == chan[j]);
    }
    assert(params[chan.len() as int] == ' ');
    assert(params[chan.len() + 1 as int] == ':');
    lemma_find_pair_at(params, ' ', ':', chan.len() as int);
    assert(params.subrange(0, chan.len() as int) =~= chan);
    if chan.len() > 0 {
        lemma_trim_plain(chan);
    }
    assert(params.subrange(chan.len() + 2 as int, params.len() as int) =~= text);
    let pre = nick + (seq!['!'] + user);
    lemma_find_char_concat(nick, seq!['!'] + user, '!');
    assert(pre.subrange(0, nick.len() as int) =~= nick);
}

/// A tagged chat line `@<tags> :<nick>!<user@host> PRIVMSG <chan> :<text>`
/// yields the chat message of `nick` in `chan` saying `text`, with the tag
/// values decoded: for every tag block without spaces, nick without `!` and
/// spaces, user part without spaces, channel without whitespace, and text
/// that does not end in whitespace (a line arrives trimmed).
pub proof fn lemma_privmsg_line(
    tg: Seq<char>,
    nick: Seq<char>,
    user: Seq<char>,
    chan: Seq<char>,
    text: Seq<char>,
)
    requires
        !has_char(tg, ' '),
        !has_char(nick, '!'),
        !has_char(nick, ' '),
        !has_char(user, ' '),
        forall|i: int| 0 <= i < chan.len() ==> !is_ws(#[trigger] chan[i]),
        text.len() > 0 ==> !is_ws(text.last()),
    ensures
        ({
            let line = "@"@ + tg + " :"@ + nick + "!"@ + user + " PRIVMSG "@ + chan + " :"@ + text;
            let m = privmsg_of(Some(nick + "!"@ + user), chan + " :"@ + text, tags_of(tg));
            &&& m is Some
            &&& event_of(line) == Some(EventView::Message(m->0))
            &&& m->0.username == nick
            &&& m->0.channel == chan
            &&& m->0.text == text
            &&& m->0.display_name == match tag_value(tags_of(tg), "display-name"@) {
                Some(d) => d,
                None => nick,
            }
        }),
{
    reveal_strlit("@");
    reveal_strlit(" :");
    reveal_strlit("!");
    reveal_strlit(" PRIVMSG ");
    reveal_strlit("PRIVMSG");
    reveal_strlit("PING ");
    let line = "@"@ + tg + " :"@ + nick + "!"@ + user + " PRIVMSG "@ + chan + " :"@ + text;
    let params = chan + (seq![' ', ':'] + text);
    let cmd = "PRIVMSG"@;
    let r2 = cmd + (seq![' '] + params);
    let pre = nick + (seq!['!'] + user);
    let r1 = seq![':'] + (pre + (seq![' '] + r2));
    assert(line =~= seq!['@'] + (tg + (seq![' '] + r1)));
    assert(chan + " :"@ + text =~= params);
    assert(nick + "!"@ + user =~= pre);
    assert(!is_ws(params.last())) by {
        if text.len() > 0 {
            assert(params.last() == text.last());
        } else {
            assert(params.last() == ':');
        }
    }
    assert(r2.last() == params.last());
    assert(r1.last() == params.last());
    assert(line.subrange(0, 5)[0] == '@');
    lemma_find_char_at(seq!['!'], ' ', 1);
    lemma_no_char_concat(nick, seq!['!'], ' ');
    lemma_no_char_concat(nick + seq!['!'], user, ' ');
    assert(nick + seq!['!'] + user =~= pre);
    lemma_find_char_at(cmd, ' ', 7);
    lemma_tags_part(tg, r1);
    lemma_prefix_part(pre, r2);
    lemma_command_part(cmd, params);
    lemma_privmsg_part(nick, user, chan, text, tags_of(tg));
}

} // verus!
