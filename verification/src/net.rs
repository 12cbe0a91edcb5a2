//! The private-net file: point a Tor client at a private network's own directory
//! authorities and fallback caches instead of the real Tor network.
//!
//! Line format: `authority <name> <v3ident-hex>` and
//! `fallback <rsa-id-hex> <ed-id-base64> <ip:orport>`. A line that starts with `#` is
//! a comment.

use crate::text::{
    agrees, all_hex, append_decimal, blank_text_has_no_words, chars_of, decimal, is_blank, is_hex,
    is_white_space, same_text, split_words, texts, word_end, word_start, words,
    words_are_not_empty,
};
use vstd::prelude::*;

verus! {

/// A directory authority.
#[derive(Debug, Clone, PartialEq, Eq)]
pub struct Authority {
    pub name: String,
    pub v3ident: String,
}

/// A fallback directory cache.
#[derive(Debug, Clone, PartialEq, Eq)]
pub struct Fallback {
    pub rsa: String,
    pub ed: String,
    pub orport: String,
}

/// A private network, as its file describes it.
#[derive(Debug, Clone, PartialEq, Eq)]
pub struct PrivateNet {
    pub authorities: Vec<Authority>,
    pub fallbacks: Vec<Fallback>,
}

/// The mathematical content of a [`PrivateNet`]: the name and the identity of
/// each authority; the RSA identity, the Ed25519 identity and the address of each
/// fallback cache.
#[verifier::ext_equal]
pub struct Net {
    pub authorities: Seq<(Seq<char>, Seq<char>)>,
    pub fallbacks: Seq<(Seq<char>, Seq<char>, Seq<char>)>,
}

impl View for PrivateNet {
    type V = Net;

    open spec fn view(&self) -> Net {
        Net {
            authorities: Seq::new(
                self.authorities@.len(),
                |i: int| (self.authorities@[i].name@, self.authorities@[i].v3ident@),
            ),
            fallbacks: Seq::new(
                self.fallbacks@.len(),
                |i: int|
                    (
                        self.fallbacks@[i].rsa@,
                        self.fallbacks@[i].ed@,
                        self.fallbacks@[i].orport@,
                    ),
            ),
        }
    }
}

/// The place of the first line feed from `i` on, or the end of `s`.
pub open spec fn line_end(s: Seq<char>, i: int) -> int
    decreases s.len() - i,
{
    if i < s.len() && s[i] != '\n' {
        line_end(s, i + 1)
    } else {
        i
    }
}

proof fn line_end_bounds(s: Seq<char>, i: int)
    requires
        0 <= i <= s.len(),
    ensures
        i <= line_end(s, i) <= s.len(),
    decreases s.len() - i,
{
    if i < s.len() && s[i] != '\n' {
        line_end_bounds(s, i + 1);
    }
}

/// The lines of `s` from `i` on, without their line feeds. Behind the last line
/// feed stands a last line, which may be empty.
pub open spec fn lines_from(s: Seq<char>, i: int) -> Seq<Seq<char>>
    decreases s.len() - i,
    when 0 <= i <= s.len()
    via lines_from_terminates
{
    let end = line_end(s, i);
    if end >= s.len() {
        seq![s.subrange(i, end)]
    } else {
        seq![s.subrange(i, end)] + lines_from(s, end + 1)
    }
}

#[via_fn]
proof fn lines_from_terminates(s: Seq<char>, i: int) {
    line_end_bounds(s, i);
}

/// The lines of a text.
pub open spec fn lines(s: Seq<char>) -> Seq<Seq<char>> {
    lines_from(s, 0)
}

/// Whether a line says nothing: it is blank, or a comment.
pub open spec fn is_silent(line: Seq<char>) -> bool {
    let fields = words(line);
    fields.len() == 0 || fields[0][0] == '#'
}

/// What one line adds to a network, or the complaint about it.
pub open spec fn read_line(net: Net, line: Seq<char>, number: nat) -> Result<Net, Seq<char>> {
    let fields = words(line);
    if is_silent(line) {
        Ok(net)
    } else if fields.len() == 3 && fields[0] == "authority"@ {
        if all_hex(fields[2]) {
            Ok(Net { authorities: net.authorities.push((fields[1], fields[2])), ..net })
        } else {
            Err("line "@ + decimal(number) + ": v3ident is not hex"@)
        }
    } else if fields.len() == 4 && fields[0] == "fallback"@ {
        Ok(Net { fallbacks: net.fallbacks.push((fields[1], fields[2], fields[3])), ..net })
    } else {
        Err("line "@ + decimal(number) + ": unrecognized directive"@)
    }
}

/// What lines, the first of which has the given number, add to a network; the
/// first line that is at fault is complained about.
pub open spec fn read_lines(net: Net, lines: Seq<Seq<char>>, number: nat) -> Result<Net, Seq<char>>
    decreases lines.len(),
{
    if lines.len() == 0 {
        Ok(net)
    } else {
        match read_line(net, lines[0], number) {
            Ok(more) => read_lines(more, lines.skip(1), number + 1),
            Err(complaint) => Err(complaint),
        }
    }
}

/// A network of nothing.
pub open spec fn no_net() -> Net {
    Net { authorities: Seq::empty(), fallbacks: Seq::empty() }
}

/// What lines describe: a network with at least one authority and at least one
/// fallback cache, or the complaint about it.
pub open spec fn net_of(lines: Seq<Seq<char>>) -> Result<Net, Seq<char>> {
    match read_lines(no_net(), lines, 1) {
        Err(complaint) => Err(complaint),
        Ok(net) => if net.authorities.len() == 0 {
            Err("no authorities in private-net file"@)
        } else if net.fallbacks.len() == 0 {
            Err("no fallback caches in private-net file"@)
        } else {
            Ok(net)
        },
    }
}

/// A complaint about the line that `before` lines precede.
fn line_complaint(before: u64, what: &str) -> (text: String)
    requires
        before < u64::MAX,
    ensures
        text@ == "line "@ + decimal(before as nat + 1) + what@,
{
    let mut text = "line ".to_owned();
    append_decimal(&mut text, before + 1);
    text.append(what);
    text
}

impl PrivateNet {
    /// Adds what the line that `before` lines precede says.
    fn take_line(&mut self, line: &str, before: u64) -> (result: Result<(), String>)
        requires
            line@.len() > 0 ==> before < u64::MAX,
        ensures
            match read_line(old(self)@, line@, before as nat + 1) {
                Ok(net) => result is Ok && final(self)@ == net,
                Err(words) => result matches Err(complaint) && complaint@ == words,
            },
    {
        let fields = split_words(line);
        let ghost said = words(line@);
        assert(fields@.len() == said.len());
        assert forall|i: int| 0 <= i < fields@.len() implies fields@[i]@ == said[i] by {
            assert(texts(fields@)[i] == said[i]);
        }
        if fields.len() == 0 {
            return Ok(());
        }
        proof {
            words_are_not_empty(line@, 0);
            assert(said[0].len() > 0);
            assert(line@.len() > 0);
        }
        if fields[0].as_str().get_char(0) == '#' {
            return Ok(());
        }
        if fields.len() == 3 && same_text(fields[0].as_str(), "authority") {
            if !is_hex(fields[2].as_str()) {
                return Err(line_complaint(before, ": v3ident is not hex"));
            }
            self.authorities.push(
                Authority { name: fields[1].clone(), v3ident: fields[2].clone() },
            );
            assert(self@.authorities =~= old(self)@.authorities.push((said[1], said[2])));
            assert(self@.fallbacks =~= old(self)@.fallbacks);
            return Ok(());
        }
        if fields.len() == 4 && same_text(fields[0].as_str(), "fallback") {
            self.fallbacks.push(
                Fallback {
                    rsa: fields[1].clone(),
                    ed: fields[2].clone(),
                    orport: fields[3].clone(),
                },
            );
            assert(self@.fallbacks =~= old(self)@.fallbacks.push((said[1], said[2], said[3])));
            assert(self@.authorities =~= old(self)@.authorities);
            return Ok(());
        }
        Err(line_complaint(before, ": unrecognized directive"))
    }

    /// Reads a private-net file.
    pub fn parse(text: &str) -> (parsed: Result<PrivateNet, String>)
        ensures
            agrees(parsed, net_of(lines(text@))),
    {
        let chars = chars_of(text);
        let mut net = PrivateNet { authorities: Vec::new(), fallbacks: Vec::new() };
        assert(net@ =~= no_net());
        let mut i: usize = 0;
        let mut before: u64 = 0;
        loop
            invariant_except_break
                chars@ == text@,
                i <= chars.len(),
                before <= i,
                read_lines(no_net(), lines(text@), 1) == read_lines(
                    net@,
                    lines_from(text@, i as int),
                    before as nat + 1,
                ),
            ensures
                read_lines(no_net(), lines(text@), 1) == Ok::<Net, Seq<char>>(net@),
            decreases chars.len() - i,
        {
            let start: usize = i;
            let ghost rest = lines_from(text@, start as int);
            while i < chars.len() && chars[i] != '\n'
                invariant
                    chars@ == text@,
                    start <= i <= chars.len(),
                    line_end(text@, start as int) == line_end(text@, i as int),
                decreases chars.len() - i,
            {
                i = i + 1;
            }
            let line = text.substring_char(start, i);
            assert(rest[0] == line@);
            match net.take_line(line, before) {
                Ok(()) => {},
                Err(complaint) => {
                    return Err(complaint);
                },
            }
            if i == chars.len() {
                assert(rest.skip(1) =~= Seq::empty());
                assert(read_lines(net@, rest.skip(1), before as nat + 2) == Ok::<Net, Seq<char>>(
                    net@,
                ));
                break;
            }
            i = i + 1;
            before = before + 1;
            assert(rest.skip(1) =~= lines_from(text@, i as int));
        }
        if net.authorities.len() == 0 {
            return Err("no authorities in private-net file".to_owned());
        }
        if net.fallbacks.len() == 0 {
            return Err("no fallback caches in private-net file".to_owned());
        }
        Ok(net)
    }
}

/// What lines add to a network does not depend on where they stand in the file;
/// only the words of a complaint do.
pub proof fn numbers_matter_to_complaints_alone(
    net: Net,
    lines: Seq<Seq<char>>,
    number: nat,
    other: nat,
)
    ensures
        read_lines(net, lines, number) is Ok <==> read_lines(net, lines, other) is Ok,
        read_lines(net, lines, number) is Ok ==> read_lines(net, lines, number) == read_lines(
            net,
            lines,
            other,
        ),
    decreases lines.len(),
{
    if lines.len() > 0 {
        if let Ok(more) = read_line(net, lines[0], number) {
            numbers_matter_to_complaints_alone(more, lines.skip(1), number + 1, other + 1);
        }
    }
}

proof fn silent_line_among_lines(net: Net, lines: Seq<Seq<char>>, k: int, number: nat)
    requires
        0 <= k < lines.len(),
        is_silent(lines[k]),
    ensures
        read_lines(net, lines, number) is Ok <==> read_lines(net, lines.remove(k), number) is Ok,
        read_lines(net, lines, number) is Ok ==> read_lines(net, lines, number) == read_lines(
            net,
            lines.remove(k),
            number,
        ),
    decreases lines.len(),
{
    if k == 0 {
        assert(lines.remove(0) =~= lines.skip(1));
        numbers_matter_to_complaints_alone(net, lines.skip(1), number, number + 1);
    } else {
        assert(lines.remove(k)[0] == lines[0]);
        assert(lines.remove(k).skip(1) =~= lines.skip(1).remove(k - 1));
        if let Ok(more) = read_line(net, lines[0], number) {
            silent_line_among_lines(more, lines.skip(1), k - 1, number + 1);
        }
    }
}

/// Blank lines and comments are ignored: with one taken out, a file is accepted
/// exactly if it was before, and describes the same network.
pub proof fn silent_lines_are_ignored(lines: Seq<Seq<char>>, k: int)
    requires
        0 <= k < lines.len(),
        is_silent(lines[k]),
    ensures
        net_of(lines) is Ok <==> net_of(lines.remove(k)) is Ok,
        net_of(lines) is Ok ==> net_of(lines) == net_of(lines.remove(k)),
{
    silent_line_among_lines(no_net(), lines, k, 1);
}

/// Every authority of `net` has an identity in hexadecimal.
pub open spec fn identities_are_hex(net: Net) -> bool {
    forall|i: int|
        0 <= i < net.authorities.len() ==> all_hex((#[trigger] net.authorities[i]).1)
}

proof fn lines_keep_identities_hex(net: Net, lines: Seq<Seq<char>>, number: nat)
    requires
        identities_are_hex(net),
        read_lines(net, lines, number) is Ok,
    ensures
        identities_are_hex(read_lines(net, lines, number)->Ok_0),
    decreases lines.len(),
{
    if lines.len() > 0 {
        let more = read_line(net, lines[0], number)->Ok_0;
        assert forall|i: int| 0 <= i < more.authorities.len() implies all_hex(
            (#[trigger] more.authorities[i]).1,
        ) by {
            if i < net.authorities.len() {
                assert(more.authorities[i] == net.authorities[i]);
            }
        }
        lines_keep_identities_hex(more, lines.skip(1), number + 1);
    }
}

/// A network that is accepted has an authority and a fallback cache, and the
/// identities of its authorities are hexadecimal.
pub proof fn accepted_net_is_complete(lines: Seq<Seq<char>>)
    requires
        net_of(lines) is Ok,
    ensures
        (net_of(lines)->Ok_0).authorities.len() > 0,
        (net_of(lines)->Ok_0).fallbacks.len() > 0,
        identities_are_hex(net_of(lines)->Ok_0),
{
    lines_keep_identities_hex(no_net(), lines, 1);
}

proof fn line_end_is_shifted(s: Seq<char>, t: Seq<char>, by: int, i: int)
    requires
        0 <= by <= s.len(),
        t == s.skip(by),
        0 <= i <= t.len(),
    ensures
        line_end(s, by + i) == by + line_end(t, i),
    decreases t.len() - i,
{
    if i < t.len() && t[i] != '\n' {
        line_end_is_shifted(s, t, by, i + 1);
    }
}

proof fn lines_are_shifted(s: Seq<char>, t: Seq<char>, by: int, i: int)
    requires
        0 <= by <= s.len(),
        t == s.skip(by),
        0 <= i <= t.len(),
    ensures
        lines_from(s, by + i) == lines_from(t, i),
    decreases t.len() - i,
{
    line_end_is_shifted(s, t, by, i);
    line_end_bounds(t, i);
    let end = line_end(t, i);
    assert(s.subrange(by + i, by + end) =~= t.subrange(i, end));
    if end < t.len() {
        lines_are_shifted(s, t, by, end + 1);
    }
}

proof fn line_end_of_line(line: Seq<char>, rest: Seq<char>, i: int)
    requires
        !line.contains('\n'),
        rest.len() > 0 ==> rest[0] == '\n',
        0 <= i <= line.len(),
    ensures
        line_end(line + rest, i) == line.len(),
    decreases line.len() - i,
{
    if i < line.len() {
        assert((line + rest)[i] == line[i]);
        assert(line.contains(line[i]));
        line_end_of_line(line, rest, i + 1);
    } else if rest.len() > 0 {
        assert((line + rest)[i] == rest[0]);
    }
}

/// A line without a line feed in it is a line by itself, whole; with a line feed behind
/// it, it is the first line of the text, and the lines of what follows come after it.
pub proof fn line_feeds_end_lines(line: Seq<char>, rest: Seq<char>)
    requires
        !line.contains('\n'),
    ensures
        lines(line) == seq![line],
        lines(line + seq!['\n'] + rest) == seq![line] + lines(rest),
{
    line_end_of_line(line, Seq::empty(), 0);
    assert(line + Seq::<char>::empty() =~= line);
    assert(line.subrange(0, line.len() as int) =~= line);
    let text = line + seq!['\n'] + rest;
    let tail = seq!['\n'] + rest;
    assert(text =~= line + tail);
    line_end_of_line(line, tail, 0);
    assert(text.subrange(0, line.len() as int) =~= line);
    let by = line.len() as int + 1;
    assert(text.skip(by) =~= rest);
    lines_are_shifted(text, rest, by, 0);
}

/// A line says nothing exactly if it is white space up to its end or up to a `#`.
pub proof fn silent_lines_are_blank_or_comments(line: Seq<char>)
    ensures
        is_silent(line) <==> exists|i: int|
            0 <= i <= line.len() && is_blank(#[trigger] line.take(i)) && (i == line.len()
                || line[i] == '#'),
{
    if is_silent(line) {
        let i = word_start(line, 0);
        blank_up_to_the_first_word(line, 0);
        assert(is_blank(line.take(i)));
        if i < line.len() {
            assert(words(line)[0] == line.subrange(i, word_end(line, i)));
            first_word_is_not_empty(line);
        }
    }
    if exists|i: int|
        0 <= i <= line.len() && is_blank(#[trigger] line.take(i)) && (i == line.len() || line[i]
            == '#') {
        let i = choose|i: int|
            0 <= i <= line.len() && is_blank(#[trigger] line.take(i)) && (i == line.len()
                || line[i] == '#');
        let rest = line.skip(i);
        assert(line =~= line.take(i) + rest);
        blank_text_has_no_words(line.take(i), rest);
        if i < line.len() {
            first_word_is_not_empty(rest);
            assert(rest[0] == '#');
            assert(word_start(rest, 0) == 0);
            assert(words(rest)[0] == rest.subrange(0, word_end(rest, 0)));
            assert(words(rest)[0][0] == rest[0]);
        } else {
            assert(rest =~= Seq::empty());
            blank_text_has_no_words(Seq::empty(), Seq::empty());
        }
    }
}

proof fn blank_up_to_the_first_word(s: Seq<char>, i: int)
    requires
        0 <= i <= s.len(),
        is_blank(s.take(i)),
    ensures
        i <= word_start(s, i) <= s.len(),
        is_blank(s.take(word_start(s, i))),
    decreases s.len() - i,
{
    if i < s.len() && is_white_space(s[i]) {
        assert forall|k: int| 0 <= k < i + 1 implies is_white_space(#[trigger] s.take(i + 1)[k]) by {
            if k < i {
                assert(s.take(i)[k] == s[k]);
            }
        }
        blank_up_to_the_first_word(s, i + 1);
    }
}

proof fn first_word_is_not_empty(s: Seq<char>)
    ensures
        ({
            let start = word_start(s, 0);
            start < s.len() ==> words(s).len() > 0 && words(s)[0] == s.subrange(
                start,
                word_end(s, start),
            ) && start < word_end(s, start) <= s.len() && words(s)[0][0] == s[start]
        }),
{
    words_are_not_empty(s, 0);
    let start = word_start(s, 0);
    blank_up_to_the_first_word(s, 0);
    if start < s.len() {
        assert(words(s)[0] == s.subrange(start, word_end(s, start)));
        assert(words(s)[0].len() > 0);
        word_end_is_within(s, start);
    }
}

proof fn word_end_is_within(s: Seq<char>, i: int)
    requires
        0 <= i <= s.len(),
    ensures
        i <= word_end(s, i) <= s.len(),
    decreases s.len() - i,
{
    if i < s.len() && !is_white_space(s[i]) {
        word_end_is_within(s, i + 1);
    }
}

/// The lines whose first word is `directive`, in their order.
pub open spec fn saying(lines: Seq<Seq<char>>, directive: Seq<char>) -> Seq<Seq<char>>
    decreases lines.len(),
{
    if lines.len() == 0 {
        Seq::empty()
    } else if words(lines.last()).len() > 0 && words(lines.last())[0] == directive {
        saying(lines.drop_last(), directive).push(lines.last())
    } else {
        saying(lines.drop_last(), directive)
    }
}

/// Whether a line is one that a file may hold: a blank line, a comment, an authority
/// with its name and an identity in hexadecimal, or a fallback cache with its three
/// fields.
pub open spec fn is_in_order(line: Seq<char>) -> bool {
    ||| is_silent(line)
    ||| words(line).len() == 3 && words(line)[0] == "authority"@ && all_hex(words(line)[2])
    ||| words(line).len() == 4 && words(line)[0] == "fallback"@
}

/// Whether `net` holds what `lines` say: for each authority line the name and the
/// identity on it, for each fallback line its three fields, one for one and in order.
pub open spec fn holds_what_lines_say(net: Net, lines: Seq<Seq<char>>) -> bool {
    let (das, fbs) = (saying(lines, "authority"@), saying(lines, "fallback"@));
    &&& net.authorities.len() == das.len()
    &&& forall|i: int|
        0 <= i < das.len() ==> words(#[trigger] das[i]).len() == 3 && net.authorities[i] == (
            words(das[i])[1],
            words(das[i])[2],
        )
    &&& net.fallbacks.len() == fbs.len()
    &&& forall|i: int|
        0 <= i < fbs.len() ==> words(#[trigger] fbs[i]).len() == 4 && net.fallbacks[i] == (
            words(fbs[i])[1],
            words(fbs[i])[2],
            words(fbs[i])[3],
        )
}

proof fn one_more_line(net: Net, lines: Seq<Seq<char>>, line: Seq<char>, number: nat)
    ensures
        read_lines(net, lines.push(line), number) == (match read_lines(net, lines, number) {
            Ok(more) => read_line(more, line, number + lines.len()),
            Err(complaint) => Err(complaint),
        }),
    decreases lines.len(),
{
    let all = lines.push(line);
    if lines.len() == 0 {
        assert(all.skip(1) =~= Seq::empty());
        reveal_with_fuel(read_lines, 2);
    } else {
        assert(all[0] == lines[0]);
        assert(all.skip(1) =~= lines.skip(1).push(line));
        if let Ok(more) = read_line(net, lines[0], number) {
            one_more_line(more, lines.skip(1), line, number + 1);
        }
    }
}

proof fn directives_differ()
    ensures
        "authority"@ != "fallback"@,
        "authority"@.len() > 0,
        "fallback"@.len() > 0,
        "authority"@[0] != '#',
        "fallback"@[0] != '#',
{
    reveal_strlit("authority");
    reveal_strlit("fallback");
    assert("authority"@[0] != "fallback"@[0]);
}

proof fn lines_in_order_are_held(lines: Seq<Seq<char>>)
    ensures
        read_lines(no_net(), lines, 1) is Ok <==> forall|i: int|
            0 <= i < lines.len() ==> is_in_order(#[trigger] lines[i]),
        read_lines(no_net(), lines, 1) matches Ok(net) ==> holds_what_lines_say(net, lines),
    decreases lines.len(),
{
    directives_differ();
    if lines.len() > 0 {
        let before = lines.drop_last();
        let line = lines.last();
        lines_in_order_are_held(before);
        one_more_line(no_net(), before, line, 1);
        assert(before.push(line) =~= lines);
        assert forall|i: int| 0 <= i < before.len() implies before[i] == lines[i] by {}
        if read_lines(no_net(), lines, 1) is Ok {
            assert forall|i: int| 0 <= i < lines.len() implies is_in_order(#[trigger] lines[i]) by {
                if i < before.len() {
                    assert(is_in_order(before[i]));
                }
            }
            let had = read_lines(no_net(), before, 1)->Ok_0;
            let net = read_lines(no_net(), lines, 1)->Ok_0;
            let (das, fbs) = (saying(before, "authority"@), saying(before, "fallback"@));
            assert(holds_what_lines_say(had, before));
            let (all_das, all_fbs) = (saying(lines, "authority"@), saying(lines, "fallback"@));
            assert forall|i: int| 0 <= i < all_das.len() implies words(#[trigger] all_das[i]).len()
                == 3 && net.authorities[i] == (words(all_das[i])[1], words(all_das[i])[2]) by {
                if i < das.len() {
                    assert(all_das[i] == das[i]);
                }
            }
            assert forall|i: int| 0 <= i < all_fbs.len() implies words(#[trigger] all_fbs[i]).len()
                == 4 && net.fallbacks[i] == (
                words(all_fbs[i])[1],
                words(all_fbs[i])[2],
                words(all_fbs[i])[3],
            ) by {
                if i < fbs.len() {
                    assert(all_fbs[i] == fbs[i]);
                }
            }
        } else {
            if forall|i: int| 0 <= i < lines.len() ==> is_in_order(#[trigger] lines[i]) {
                assert(is_in_order(lines[lines.len() - 1]));
                assert forall|i: int| 0 <= i < before.len() implies is_in_order(
                    #[trigger] before[i],
                ) by {
                    assert(is_in_order(lines[i]));
                }
                assert(false);
            }
        }
    }
}

/// An accepted file is read whole: its fallback caches are, one for one and in order,
/// the three fields of the lines whose first word is `fallback`, and its authorities
/// the name and the identity of those whose first word is `authority`.
pub proof fn accepted_net_holds_what_lines_say(lines: Seq<Seq<char>>)
    requires
        net_of(lines) is Ok,
    ensures
        holds_what_lines_say(net_of(lines)->Ok_0, lines),
{
    lines_in_order_are_held(lines);
}

/// A file is accepted exactly if each of its lines is in order, and at least one is an
/// authority and one a fallback cache.
pub proof fn accepted_exactly_if_in_order(lines: Seq<Seq<char>>)
    ensures
        net_of(lines) is Ok <==> {
            &&& forall|i: int| 0 <= i < lines.len() ==> is_in_order(#[trigger] lines[i])
            &&& saying(lines, "authority"@).len() > 0
            &&& saying(lines, "fallback"@).len() > 0
        },
{
    lines_in_order_are_held(lines);
}

/// One more line at the end of a file that is accepted adds what it says and keeps all
/// the rest.
pub proof fn one_more_line_adds_one_entry(lines: Seq<Seq<char>>, line: Seq<char>)
    requires
        net_of(lines) is Ok,
        is_in_order(line),
    ensures
        ({
            let (had, has) = (net_of(lines)->Ok_0, net_of(lines.push(line))->Ok_0);
            &&& net_of(lines.push(line)) is Ok
            &&& is_silent(line) ==> has == had
            &&& !is_silent(line) && words(line)[0] == "authority"@ ==> has.fallbacks
                == had.fallbacks && has.authorities == had.authorities.push(
                (words(line)[1], words(line)[2]),
            )
            &&& !is_silent(line) && words(line)[0] == "fallback"@ ==> has.authorities
                == had.authorities && has.fallbacks == had.fallbacks.push(
                (words(line)[1], words(line)[2], words(line)[3]),
            )
        }),
{
    directives_differ();
    one_more_line(no_net(), lines, line, 1);
}

proof fn complaints_stay(net: Net, lines: Seq<Seq<char>>, upto: int, number: nat)
    requires
        0 <= upto <= lines.len(),
        read_lines(net, lines.take(upto), number) is Err,
    ensures
        read_lines(net, lines, number) == read_lines(net, lines.take(upto), number),
    decreases lines.len() - upto,
{
    if upto == lines.len() {
        assert(lines.take(upto) =~= lines);
    } else {
        one_more_line(net, lines.take(upto), lines[upto], number);
        assert(lines.take(upto).push(lines[upto]) =~= lines.take(upto + 1));
        complaints_stay(net, lines, upto + 1, number);
    }
}

/// The first line that is not in order is the one that is complained about, by its
/// number counted from one, whatever stands behind it. Without such a line, it is
/// missing authorities that are complained of first, then missing fallback caches.
pub proof fn first_fault_is_complained_of(lines: Seq<Seq<char>>, k: int)
    requires
        0 <= k <= lines.len(),
        forall|i: int| 0 <= i < k ==> is_in_order(#[trigger] lines[i]),
    ensures
        k < lines.len() && !is_in_order(lines[k]) ==> net_of(lines) == Err::<Net, Seq<char>>(
            "line "@ + decimal((k + 1) as nat) + (if words(lines[k]).len() == 3 && words(
                lines[k],
            )[0] == "authority"@ {
                ": v3ident is not hex"@
            } else {
                ": unrecognized directive"@
            }),
        ),
        k == lines.len() && saying(lines, "authority"@).len() == 0 ==> net_of(lines) == Err::<
            Net,
            Seq<char>,
        >("no authorities in private-net file"@),
        k == lines.len() && saying(lines, "authority"@).len() > 0 && saying(
            lines,
            "fallback"@,
        ).len() == 0 ==> net_of(lines) == Err::<Net, Seq<char>>(
            "no fallback caches in private-net file"@,
        ),
{
    lines_in_order_are_held(lines);
    if k < lines.len() && !is_in_order(lines[k]) {
        let before = lines.take(k);
        lines_in_order_are_held(before);
        assert forall|i: int| 0 <= i < before.len() implies is_in_order(#[trigger] before[i]) by {
            assert(is_in_order(lines[i]));
        }
        one_more_line(no_net(), before, lines[k], 1);
        assert(before.push(lines[k]) =~= lines.take(k + 1));
        complaints_stay(no_net(), lines, k + 1, 1);
    }
}

/// A network says the same as its content: no entry and no field is left out.
pub proof fn networks_hide_nothing(net: PrivateNet, i: int)
    ensures
        net@.authorities.len() == net.authorities@.len(),
        net@.fallbacks.len() == net.fallbacks@.len(),
        0 <= i < net.authorities@.len() ==> net@.authorities[i] == (
            net.authorities@[i].name@,
            net.authorities@[i].v3ident@,
        ),
        0 <= i < net.fallbacks@.len() ==> net@.fallbacks[i] == (
            net.fallbacks@[i].rsa@,
            net.fallbacks@[i].ed@,
            net.fallbacks@[i].orport@,
        ),
{
}

} // verus!
