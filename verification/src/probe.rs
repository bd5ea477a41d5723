//! Reading what system tools print: the default network interface from `route`,
//! listening ports from `lsof`, process ids from `pgrep`, and the short names of
//! Antigravity quota groups and windows. Also where the usage caches live.

use vstd::prelude::*;
use crate::config::{join, join_path};
use crate::text::{
    ascii_lower_seq, chars_of, contains_seq, is_ws, parse_unsigned, parse_unsigned_chars,
    slice_to_vec_range, split_words, starts_with, str_contains, string_of, strip_prefix_chars,
    to_ascii_lowercase, trim, trimmed, words, contains_chars,
};

verus! {

/// The pieces of `s` after each `\n`, each with its `\n` (the last without one when
/// `s` does not end with a newline), and the piece being read.
pub open spec fn line_scan(s: Seq<char>) -> (Seq<Seq<char>>, Seq<char>)
    decreases s.len(),
{
    if s.len() == 0 {
        (seq![], seq![])
    } else {
        let (done, cur) = line_scan(s.drop_last());
        let c = s.last();
        if c == '\n' {
            (done.push(cur.push(c)), seq![])
        } else {
            (done, cur.push(c))
        }
    }
}

/// A line without its ending: a final `\n`, and then a `\r` before it.
pub open spec fn line_body(piece: Seq<char>) -> Seq<char> {
    if piece.len() > 0 && piece.last() == '\n' {
        let p = piece.drop_last();
        if p.len() > 0 && p.last() == '\r' {
            p.drop_last()
        } else {
            p
        }
    } else {
        piece
    }
}

/// `str::lines`: the lines of `s` without their `\n` or `\r\n` endings; a final
/// line ending adds no empty line.
pub open spec fn lines(s: Seq<char>) -> Seq<Seq<char>> {
    let (done, cur) = line_scan(s);
    let pieces = if cur.len() > 0 {
        done.push(cur)
    } else {
        done
    };
    pieces.map_values(|p: Seq<char>| line_body(p))
}

fn body_of(piece: &Vec<char>) -> (r: Vec<char>)
    ensures
        r@ == line_body(piece@),
{
    let n = piece.len();
    if n > 0 && piece[n - 1] == '\n' {
        if n > 1 && piece[n - 2] == '\r' {
            slice_to_vec_range(piece.as_slice(), 0, n - 2)
        } else {
            slice_to_vec_range(piece.as_slice(), 0, n - 1)
        }
    } else {
        slice_to_vec_range(piece.as_slice(), 0, n)
    }
}

/// The lines of `s`.
pub fn split_lines(s: &[char]) -> (r: Vec<Vec<char>>)
    ensures
        r@.len() == lines(s@).len(),
        forall|i: int| 0 <= i < r@.len() ==> #[trigger] r@[i]@ == lines(s@)[i],
{
    let mut done: Vec<Vec<char>> = Vec::new();
    let mut cur: Vec<char> = Vec::new();
    let mut k: usize = 0;
    while k < s.len()
        invariant
            k <= s.len(),
            done@.len() == line_scan(s@.take(k as int)).0.len(),
            forall|i: int| 0 <= i < done@.len() ==> #[trigger] done@[i]@ == line_body(line_scan(s@.take(k as int)).0[i]),
            cur@ == line_scan(s@.take(k as int)).1,
        decreases s.len() - k,
    {
        let c = s[k];
        assert(s@.take(k + 1).drop_last() =~= s@.take(k as int));
        cur.push(c);
        if c == '\n' {
            let body = body_of(&cur);
            done.push(body);
            cur = Vec::new();
        }
        k = k + 1;
    }
    assert(s@.take(s@.len() as int) =~= s@);
    if cur.len() > 0 {
        let body = body_of(&cur);
        done.push(body);
    }
    done
}

/// The value of the first line that reads `interface:<value>` once trimmed.
pub open spec fn first_interface(ls: Seq<Seq<char>>) -> Option<Seq<char>>
    decreases ls.len(),
{
    if ls.len() == 0 {
        None
    } else if starts_with(trim(ls[0]), "interface:"@) {
        Some(trim(trim(ls[0]).skip("interface:"@.len() as int)))
    } else {
        first_interface(ls.skip(1))
    }
}

/// The interface named on the first `interface:` line of `route -n get default`,
/// trimmed; `network` without such a line or without the command's output.
pub open spec fn interface_from(output: Option<Seq<char>>) -> Seq<char> {
    match output {
        Some(o) => match first_interface(lines(o)) {
            Some(v) => v,
            None => "network"@,
        },
        None => "network"@,
    }
}

pub fn default_interface(route_output: Option<&str>) -> (r: String)
    ensures
        r@ == interface_from(
            match route_output {
                Some(o) => Some(o@),
                None => None,
            },
        ),
{
    match route_output {
        Some(o) => interface_in(o),
        None => String::from_str("network"),
    }
}

fn interface_in(output: &str) -> (r: String)
    ensures
        r@ == interface_from(Some(output@)),
{
    let chars = chars_of(output);
    let ls = split_lines(chars.as_slice());
    let prefix = chars_of("interface:");
    let ghost ol = lines(output@);
    let mut k: usize = 0;
    assert(ol.skip(0) =~= ol);
    while k < ls.len()
        invariant
            k <= ls.len(),
            ol == lines(output@),
            prefix@ == "interface:"@,
            ls@.len() == ol.len(),
            forall|i: int| 0 <= i < ls@.len() ==> #[trigger] ls@[i]@ == ol[i],
            first_interface(ol) == first_interface(ol.skip(k as int)),
        decreases ls.len() - k,
    {
        let line = &ls[k];
        assert(ol.skip(k as int)[0] == ol[k as int]);
        assert(ol.skip(k as int).skip(1) =~= ol.skip(k + 1));
        let t = trimmed(line.as_slice(), 0, line.len());
        assert(line@.subrange(0, line@.len() as int) =~= line@);
        match strip_prefix_chars(t.as_slice(), prefix.as_slice()) {
            Some(rest) => {
                let value = trimmed(rest.as_slice(), 0, rest.len());
                assert(rest@.subrange(0, rest@.len() as int) =~= rest@);
                return string_of(value.as_slice());
            },
            None => {},
        }
        k = k + 1;
    }
    String::from_str("network")
}

/// The port after the last `:` of an `lsof` address (`127.0.0.1:42123`).
pub open spec fn address_port(field: Seq<char>) -> Option<u16> {
    if exists|i: int| 0 <= i < field.len() && field[i] == ':' {
        let i = choose|i: int|
            0 <= i < field.len() && field[i] == ':' && forall|j: int| i < j < field.len() ==> field[j] != ':';
        match parse_unsigned(field.skip(i + 1), u16::MAX as nat) {
            Some(n) => Some(n as u16),
            None => None,
        }
    } else {
        None
    }
}

fn port_of_chars(field: &[char]) -> (r: Option<u16>)
    ensures
        r == address_port(field@),
{
    let mut i: usize = field.len();
    while i > 0 && field[i - 1] != ':'
        invariant
            i <= field.len(),
            forall|j: int| i <= j < field.len() ==> field@[j] != ':',
        decreases i,
    {
        i = i - 1;
    }
    if i == 0 {
        return None;
    }
    let colon = i - 1;
    proof {
        let c = choose|c: int|
            0 <= c < field@.len() && field@[c] == ':' && forall|j: int| c < j < field@.len() ==> field@[j] != ':';
        if c < colon {
            assert(field@[colon as int] == ':');
        } else if c > colon {
            assert(field@[c] != ':');
        }
    }
    let rest = slice_to_vec_range(field, i, field.len());
    assert(rest@ =~= field@.skip(i as int));
    match parse_unsigned_chars(rest.as_slice(), 65535) {
        Some(n) => Some(n as u16),
        None => None,
    }
}

pub fn port_from_address(field: &str) -> (r: Option<u16>)
    ensures
        r == address_port(field@),
{
    let chars = chars_of(field);
    port_of_chars(chars.as_slice())
}

/// The first field of `line` that holds a port.
pub open spec fn line_port(fields: Seq<Seq<char>>) -> Option<u16>
    decreases fields.len(),
{
    if fields.len() == 0 {
        None
    } else {
        match address_port(fields[0]) {
            Some(p) => Some(p),
            None => line_port(fields.skip(1)),
        }
    }
}

/// The listening ports `lsof` printed: on each line the first field that ends in
/// `:<port>`; lines without one are skipped.
pub open spec fn listening_ports_in(ls: Seq<Seq<char>>) -> Seq<u16>
    decreases ls.len(),
{
    if ls.len() == 0 {
        seq![]
    } else {
        let rest = listening_ports_in(ls.drop_last());
        match line_port(words(ls.last())) {
            Some(p) => rest.push(p),
            None => rest,
        }
    }
}

pub fn listening_ports(output: &str) -> (r: Vec<u16>)
    ensures
        r@ == listening_ports_in(lines(output@)),
{
    let chars = chars_of(output);
    let ls = split_lines(chars.as_slice());
    let mut r: Vec<u16> = Vec::new();
    let mut k: usize = 0;
    while k < ls.len()
        invariant
            k <= ls.len(),
            chars@ == output@,
            ls@.len() == lines(output@).len(),
            forall|i: int| 0 <= i < ls@.len() ==> #[trigger] ls@[i]@ == lines(output@)[i],
            r@ == listening_ports_in(lines(output@).take(k as int)),
        decreases ls.len() - k,
    {
        assert(lines(output@).take(k + 1).drop_last() =~= lines(output@).take(k as int));
        let fields = split_words(ls[k].as_slice());
        let ghost fs = words(ls@[k as int]@);
        let mut f: usize = 0;
        let mut found: Option<u16> = None;
        assert(fs.skip(0) =~= fs);
        while f < fields.len() && found.is_none()
            invariant
                f <= fields.len(),
                fields@.len() == fs.len(),
                forall|i: int| 0 <= i < fields@.len() ==> #[trigger] fields@[i]@ == fs[i],
                found is None ==> line_port(fs) == line_port(fs.skip(f as int)),
                found is Some ==> line_port(fs) == found,
            decreases fields.len() - f,
        {
            assert(fs.skip(f as int).skip(1) =~= fs.skip(f + 1));
            assert(fs.skip(f as int)[0] == fs[f as int]);
            found = port_of_chars(fields[f].as_slice());
            f = f + 1;
        }
        proof {
            if found is None {
                assert(fs.skip(f as int).len() == 0);
            }
        }
        match found {
            Some(p) => r.push(p),
            None => {},
        }
        k = k + 1;
    }
    assert(lines(output@).take(ls@.len() as int) =~= lines(output@));
    r
}

/// The two families of Antigravity quota groups: Gemini models and all others.
#[derive(Clone, Copy, Debug, PartialEq, Eq, Structural)]
pub enum QuotaGroup {
    Gemini,
    Other,
}

/// A group is a Gemini group when its name mentions `gemini` in any ASCII case.
pub open spec fn group_of(value: Seq<char>) -> QuotaGroup {
    if contains_seq(ascii_lower_seq(value), "gemini"@) {
        QuotaGroup::Gemini
    } else {
        QuotaGroup::Other
    }
}

pub fn short_group(value: &str) -> (r: QuotaGroup)
    ensures
        r == group_of(value@),
{
    let lower = to_ascii_lowercase(value);
    let needle = chars_of("gemini");
    if contains_chars(lower.as_slice(), needle.as_slice()) {
        QuotaGroup::Gemini
    } else {
        QuotaGroup::Other
    }
}

/// The short name of an Antigravity quota window: weekly, five-hourly, or as given.
pub open spec fn window_name(value: Seq<char>) -> Seq<char> {
    let lower = ascii_lower_seq(value);
    if contains_seq(lower, "week"@) {
        "7d"@
    } else if contains_seq(lower, "five"@) || contains_seq(lower, "5"@) {
        "5h"@
    } else {
        value
    }
}

pub fn short_window(value: &str) -> (r: String)
    ensures
        r@ == window_name(value@),
{
    let lower = to_ascii_lowercase(value);
    let week = chars_of("week");
    let five = chars_of("five");
    let digit = chars_of("5");
    if contains_chars(lower.as_slice(), week.as_slice()) {
        String::from_str("7d")
    } else if contains_chars(lower.as_slice(), five.as_slice()) || contains_chars(
        lower.as_slice(),
        digit.as_slice(),
    ) {
        String::from_str("5h")
    } else {
        String::from_str(value)
    }
}

/// Where the caches live: the platform cache directory, else the home directory,
/// else the working directory, with `stats` below it.
pub open spec fn cache_dir_of(cache: Option<Seq<char>>, home: Option<Seq<char>>) -> Seq<char> {
    let base = match cache {
        Some(c) => c,
        None => match home {
            Some(h) => h,
            None => "."@,
        },
    };
    join_path(base, "stats"@)
}

pub fn cache_dir_from(cache: Option<&str>, home: Option<&str>) -> (r: String)
    ensures
        r@ == cache_dir_of(
            match cache {
                Some(c) => Some(c@),
                None => None,
            },
            match home {
                Some(h) => Some(h@),
                None => None,
            },
        ),
{
    let base = match cache {
        Some(c) => c,
        None => match home {
            Some(h) => h,
            None => ".",
        },
    };
    join(base, "stats")
}

/// The cache file of a provider in `dir`: `<provider>-usage.json`.
pub fn cache_path(dir: &str, provider: &str) -> (r: String)
    ensures
        r@ == join_path(dir@, provider@ + "-usage.json"@),
{
    let mut name = String::from_str(provider);
    name.append("-usage.json");
    join(dir, name.as_str())
}

} // verus!
