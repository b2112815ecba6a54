//! Native toast payloads: the ToastGeneric XML a Windows toast is built
//! from, with the notification's text escaped, and the reverse mapping of a
//! captured toast's text lines onto a title and body.

use vstd::prelude::*;
use crate::notification::Notification;
use crate::text::{chars_of, push_char, push_chars, push_str};

verus! {

/// The escaped form of one character.
pub open spec fn escape_char(c: char) -> Seq<char> {
    if c == '&' {
        seq!['&', 'a', 'm', 'p', ';']
    } else if c == '<' {
        seq!['&', 'l', 't', ';']
    } else if c == '>' {
        seq!['&', 'g', 't', ';']
    } else if c == '"' {
        seq!['&', 'q', 'u', 'o', 't', ';']
    } else if c == '\'' {
        seq!['&', 'a', 'p', 'o', 's', ';']
    } else {
        seq![c]
    }
}

/// `s` with the five XML metacharacters replaced by their entities.
pub open spec fn xml_escaped(s: Seq<char>) -> Seq<char>
    decreases s.len(),
{
    if s.len() == 0 {
        Seq::empty()
    } else {
        xml_escaped(s.drop_last()) + escape_char(s.last())
    }
}

fn push_escaped_char(out: &mut String, c: char)
    ensures
        final(out)@ == old(out)@ + escape_char(c),
{
    if c == '&' {
        push_char(out, '&'); push_char(out, 'a'); push_char(out, 'm'); push_char(out, 'p'); push_char(out, ';');
    } else if c == '<' {
        push_char(out, '&'); push_char(out, 'l'); push_char(out, 't'); push_char(out, ';');
    } else if c == '>' {
        push_char(out, '&'); push_char(out, 'g'); push_char(out, 't'); push_char(out, ';');
    } else if c == '"' {
        push_char(out, '&'); push_char(out, 'q'); push_char(out, 'u'); push_char(out, 'o'); push_char(out, 't');
        push_char(out, ';');
    } else if c == '\'' {
        push_char(out, '&'); push_char(out, 'a'); push_char(out, 'p'); push_char(out, 'o'); push_char(out, 's');
        push_char(out, ';');
    } else {
        push_char(out, c);
    }
    assert(final(out)@ =~= old(out)@ + escape_char(c));
}

fn push_escaped(out: &mut String, s: &str)
    ensures
        final(out)@ == old(out)@ + xml_escaped(s@),
{
    let v = chars_of(s);
    let mut i: usize = 0;
    assert(v@.take(0) =~= Seq::<char>::empty());
    while i < v.len()
        invariant
            v@ == s@,
            i <= v@.len(),
            out@ == old(out)@ + xml_escaped(v@.take(i as int)),
        decreases v.len() - i,
    {
        push_escaped_char(out, v[i]);
        assert(v@.take(i + 1).drop_last() =~= v@.take(i as int));
        assert(v@.take(i + 1).last() == v@[i as int]);
        i = i + 1;
        assert(out@ =~= old(out)@ + xml_escaped(v@.take(i as int)));
    }
    assert(v@.take(v@.len() as int) =~= v@);
}

/// Escape `&`, `<`, `>`, `"` and `'` for inclusion in XML text.
pub fn xml_escape(s: &str) -> (r: String)
    ensures
        r@ == xml_escaped(s@),
{
    let mut r = String::new();
    push_escaped(&mut r, s);
    assert(r@ =~= xml_escaped(s@));
    r
}

/// The opening of a ToastGeneric toast, up to the first text element.
pub const TOAST_HEAD: &'static str = "<toast><visual><binding template=\"ToastGeneric\"><text>";

/// Between the title and body text elements.
pub const TOAST_MID: &'static str = "</text><text>";

/// The close of the toast after the body text.
pub const TOAST_TAIL: &'static str = "</text></binding></visual></toast>";

/// The toast XML for `n`: the escaped title and body as two text elements.
pub open spec fn toast_xml(n: &Notification) -> Seq<char> {
    TOAST_HEAD@ + xml_escaped(n.title@) + TOAST_MID@ + xml_escaped(n.body@) + TOAST_TAIL@
}

/// Build the ToastGeneric XML payload for a notification.
pub fn build_toast_xml(n: &Notification) -> (xml: String)
    ensures
        xml@ == toast_xml(n),
{
    let mut xml = String::new();
    push_str(&mut xml, TOAST_HEAD);
    push_escaped(&mut xml, n.title.as_str());
    push_str(&mut xml, TOAST_MID);
    push_escaped(&mut xml, n.body.as_str());
    push_str(&mut xml, TOAST_TAIL);
    assert(xml@ =~= toast_xml(n));
    xml
}

/// `lines` joined with newlines.
pub open spec fn joined(lines: Seq<Seq<char>>) -> Seq<char>
    decreases lines.len(),
{
    if lines.len() == 0 {
        Seq::empty()
    } else if lines.len() == 1 {
        lines[0]
    } else {
        joined(lines.drop_last()) + seq!['\n'] + lines.last()
    }
}

/// Map a captured toast's text lines onto (title, body): the first line is
/// the title and the rest, joined with newlines, the body; no lines give two
/// empty strings.
pub fn title_body_from_lines(lines: &Vec<String>) -> (r: (String, String))
    ensures
        lines@.len() == 0 ==> r.0@.len() == 0 && r.1@.len() == 0,
        lines@.len() > 0 ==> r.0@ == lines@[0]@
            && r.1@ == joined(lines@.subrange(1, lines@.len() as int).map_values(|l: String| l@)),
{
    if lines.len() == 0 {
        return (String::new(), String::new());
    }
    let title = lines[0].clone();
    let mut body = String::new();
    let mut i: usize = 1;
    let ghost all = lines@.map_values(|l: String| l@);
    while i < lines.len()
        invariant
            1 <= i <= lines@.len(),
            all == lines@.map_values(|l: String| l@),
            body@ == joined(all.subrange(1, i as int)),
        decreases lines.len() - i,
    {
        if i > 1 {
            push_char(&mut body, '\n');
        }
        push_str(&mut body, lines[i].as_str());
        proof {
            let s = all.subrange(1, i + 1);
            assert(s.drop_last() =~= all.subrange(1, i as int));
            assert(s.last() == lines@[i as int]@);
            if i == 1 {
                assert(s.len() == 1);
            }
        }
        i = i + 1;
    }
    assert(all.subrange(1, lines@.len() as int) =~= lines@.subrange(1, lines@.len() as int).map_values(|l: String| l@));
    (title, body)
}

} // verus!
