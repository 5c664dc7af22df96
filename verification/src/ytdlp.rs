//! The yt-dlp engine's own logic: command lines, reading its progress output
//! and shaping the metadata it reports.

use vstd::prelude::*;
use serde_json::Value;
use crate::models::{Config, MediaFormat, MediaInfo, PlaylistItem, Task};
use crate::text::{
    chars_of, contains_char, contains_chars, contains_seq, is_blank, is_blank_seq, replace_chars,
    replace_seq, str_eq, string_from_chars, concat_chars, utf8_lossy, utf8_lossy_text,
};

verus! {

/// A decimal digit.
pub open spec fn is_digit(c: char) -> bool {
    '0' <= c && c <= '9'
}

/// The value of a digit character.
pub open spec fn digit_value(c: char) -> nat {
    (c as u32 - '0' as u32) as nat
}

/// The number that a string of decimal digits writes.
pub open spec fn digits_value(s: Seq<char>) -> nat
    decreases s.len(),
{
    if s.len() == 0 {
        0
    } else {
        digits_value(s.drop_last()) * 10 + digit_value(s.last())
    }
}

/// The digits part of a number: `s` without one leading `+`.
pub open spec fn unsigned_part(s: Seq<char>) -> Seq<char> {
    if s.len() > 0 && s[0] == '+' {
        s.drop_first()
    } else {
        s
    }
}

/// Every character is a decimal digit.
pub open spec fn all_digits(d: Seq<char>) -> bool {
    forall|i: int| 0 <= i < d.len() ==> is_digit(#[trigger] d[i])
}

/// What `str::parse::<u64>` gives: an optional `+`, then one or more decimal
/// digits whose value fits in 64 bits.
pub open spec fn parse_u64_seq(s: Seq<char>) -> Option<u64> {
    let d = unsigned_part(s);
    if d.len() > 0 && all_digits(d) && digits_value(d) <= u64::MAX {
        Some(digits_value(d) as u64)
    } else {
        None
    }
}

proof fn lemma_digits_value_prefix(s: Seq<char>, i: int)
    requires
        0 <= i <= s.len(),
    ensures
        digits_value(s.take(i)) <= digits_value(s),
    decreases s.len() - i,
{
    if i < s.len() {
        lemma_digits_value_prefix(s, i + 1);
        assert(s.take(i + 1).drop_last() =~= s.take(i));
    } else {
        assert(s.take(i) =~= s);
    }
}

/// `str::parse::<u64>` on a character sequence.
pub fn parse_u64(s: &[char]) -> (r: Option<u64>)
    ensures
        r == parse_u64_seq(s@),
{
    let start: usize = if s.len() > 0 && s[0] == '+' {
        1
    } else {
        0
    };
    let ghost d = unsigned_part(s@);
    assert(d =~= s@.skip(start as int));
    if start >= s.len() {
        assert(d.len() == 0);
        assert(parse_u64_seq(s@).is_none());
        return None;
    }
    let mut k: usize = start;
    while k < s.len()
        invariant
            start <= k <= s@.len(),
            d =~= s@.skip(start as int),
            d == unsigned_part(s@),
            forall|j: int| start <= j < k ==> is_digit(#[trigger] s@[j]),
        decreases s@.len() - k,
    {
        if !('0' <= s[k] && s[k] <= '9') {
            assert(!is_digit(d[k - start]));
            assert(!all_digits(d));
            return None;
        }
        k = k + 1;
    }
    assert forall|j: int| 0 <= j < d.len() implies is_digit(#[trigger] d[j]) by {
        assert(d[j] == s@[j + start]);
    }
    assert(all_digits(d));
    let mut acc: u64 = 0;
    let mut i: usize = start;
    while i < s.len()
        invariant
            start <= i <= s@.len(),
            d =~= s@.skip(start as int),
            d == unsigned_part(s@),
            forall|j: int| 0 <= j < d.len() ==> is_digit(#[trigger] d[j]),
            acc as nat == digits_value(d.take(i - start)),
        decreases s@.len() - i,
    {
        assert(is_digit(d[i - start]));
        assert(d[i - start] == s@[i as int]);
        let dv = (s[i] as u32 - '0' as u32) as u64;
        assert(digit_value(s@[i as int]) == dv);
        assert(d.take(i - start + 1).drop_last() =~= d.take(i - start));
        assert(d.take(i - start + 1).last() == s@[i as int]);
        if acc > (u64::MAX - dv) / 10 {
            proof {
                assert(acc * 10 + dv > u64::MAX) by (nonlinear_arith)
                    requires
                        acc > (u64::MAX - dv) / 10,
                        dv <= 9,
                ;
                lemma_digits_value_prefix(d, i - start + 1);
                assert(digits_value(d.take(i - start + 1)) == acc * 10 + dv);
            }
            return None;
        }
        assert(acc * 10 + dv <= u64::MAX) by (nonlinear_arith)
            requires
                acc <= (u64::MAX - dv) / 10,
                dv <= 9,
        ;
        acc = acc * 10 + dv;
        i = i + 1;
    }
    assert(d.take(d.len() as int) =~= d);
    Some(acc)
}

/// The decimal writing of a number.
pub open spec fn decimal(n: nat) -> Seq<char>
    decreases n,
{
    if n < 10 {
        seq![(('0' as u32) + n) as char]
    } else {
        decimal(n / 10).push((('0' as u32) + n % 10) as char)
    }
}

/// The decimal writing of `n` (`u64::to_string`).
pub fn decimal_chars(n: u64) -> (v: Vec<char>)
    ensures
        v@ == decimal(n as nat),
    decreases n,
{
    let d = (n % 10) as u8;
    let c = (48u8 + d) as char;
    assert(c == (('0' as u32) + (n % 10) as nat) as char);
    if n < 10 {
        let mut v: Vec<char> = Vec::new();
        v.push(c);
        assert(v@ =~= seq![c]);
        v
    } else {
        let mut v = decimal_chars(n / 10);
        v.push(c);
        v
    }
}

/// The pieces of `s` between occurrences of `c`, the current piece being `cur`.
pub open spec fn split_from(s: Seq<char>, c: char, cur: Seq<char>) -> Seq<Seq<char>>
    decreases s.len(),
{
    if s.len() == 0 {
        seq![cur]
    } else if s[0] == c {
        seq![cur] + split_from(s.drop_first(), c, Seq::<char>::empty())
    } else {
        split_from(s.drop_first(), c, cur.push(s[0]))
    }
}

/// `s.split(c)`: the pieces between the occurrences of `c` (at least one).
pub open spec fn split_seq(s: Seq<char>, c: char) -> Seq<Seq<char>> {
    split_from(s, c, Seq::<char>::empty())
}

/// The views of a sequence of character vectors.
pub open spec fn char_vec_views(v: Seq<Vec<char>>) -> Seq<Seq<char>> {
    v.map_values(|x: Vec<char>| x@)
}

/// `s.split(c)`, as character vectors.
pub fn split_chars(s: &[char], c: char) -> (parts: Vec<Vec<char>>)
    ensures
        char_vec_views(parts@) == split_seq(s@, c),
{
    let mut parts: Vec<Vec<char>> = Vec::new();
    let mut cur: Vec<char> = Vec::new();
    let mut i: usize = 0;
    assert(s@.skip(0) =~= s@);
    assert(char_vec_views(parts@) + split_from(s@, c, cur@) =~= split_seq(s@, c));
    while i < s.len()
        invariant
            i <= s@.len(),
            char_vec_views(parts@) + split_from(s@.skip(i as int), c, cur@) == split_seq(s@, c),
        decreases s@.len() - i,
    {
        let ghost rest = s@.skip(i as int);
        assert(rest.drop_first() =~= s@.skip(i + 1));
        if s[i] == c {
            let ghost before = char_vec_views(parts@);
            let done = cur;
            cur = Vec::new();
            parts.push(done);
            assert(char_vec_views(parts@) =~= before.push(done@));
            assert(before + (seq![done@] + split_from(rest.drop_first(), c, Seq::<char>::empty()))
                =~= before.push(done@) + split_from(rest.drop_first(), c, Seq::<char>::empty()));
        } else {
            cur.push(s[i]);
        }
        i = i + 1;
    }
    let ghost before = char_vec_views(parts@);
    parts.push(cur);
    assert(char_vec_views(parts@) =~= before + seq![cur@]);
    parts
}

/// 60 to the power `k`.
pub open spec fn pow60(k: nat) -> nat
    decreases k,
{
    if k == 0 {
        1
    } else {
        60 * pow60((k - 1) as nat)
    }
}

proof fn lemma_pow60_mono(a: nat, b: nat)
    requires
        a <= b,
    ensures
        pow60(a) <= pow60(b),
    decreases b,
{
    if a < b {
        lemma_pow60_mono(a, (b - 1) as nat);
    }
}

/// The seconds that the pieces before `n` contribute when the piece at `n`
/// and those after it have set the multiplier to `mult`: each piece that
/// parses as a number adds its value times the multiplier, which then grows
/// by 60; a piece that does not parse is skipped.
pub open spec fn eta_from(parts: Seq<Seq<char>>, n: int, mult: nat) -> nat
    decreases n,
{
    if n <= 0 {
        0
    } else {
        match parse_u64_seq(parts[n - 1]) {
            Some(v) => (v as nat) * mult + eta_from(parts, n - 1, mult * 60),
            None => eta_from(parts, n - 1, mult),
        }
    }
}

/// The number of pieces before `n` that parse as numbers.
pub open spec fn parsed_count(parts: Seq<Seq<char>>, n: int) -> nat
    decreases n,
{
    if n <= 0 {
        0
    } else {
        parsed_count(parts, n - 1) + if parse_u64_seq(parts[n - 1]).is_some() {
            1nat
        } else {
            0nat
        }
    }
}

/// The seconds an `HH:MM:SS`-style ETA stands for: the `:`-separated
/// pieces are read from the right, each one that parses as a number counting
/// 60 times as much as the previous parsed one.
pub open spec fn eta_seconds(s: Seq<char>) -> nat {
    let parts = split_seq(s, ':');
    eta_from(parts, parts.len() as int, 1)
}

/// Reading the ETA stays within 64-bit arithmetic: the total fits, and the
/// running multiplier (60 to the number of parsed pieces) does too.
pub open spec fn eta_fits(s: Seq<char>) -> bool {
    let parts = split_seq(s, ':');
    &&& eta_seconds(s) <= u64::MAX
    &&& parsed_count(parts, parts.len() as int) <= 10
}

proof fn lemma_pow60_ten()
    ensures
        pow60(10) == 604661760000000000nat,
{
    reveal_with_fuel(pow60, 11);
}

proof fn lemma_split_from_plain(x: Seq<char>, r: Seq<char>, c: char, cur: Seq<char>)
    requires
        !x.contains(c),
    ensures
        split_from(x + r, c, cur) == split_from(r, c, cur + x),
    decreases x.len(),
{
    if x.len() == 0 {
        assert(x + r =~= r);
        assert(cur + x =~= cur);
    } else {
        let xr = x + r;
        assert(xr[0] == x[0]);
        assert(xr.drop_first() =~= x.drop_first() + r);
        assert(x[0] != c) by {
            if x[0] == c {
                assert(x.contains(c));
            }
        }
        assert(!x.drop_first().contains(c)) by {
            if x.drop_first().contains(c) {
                let i = choose|i: int| 0 <= i < x.drop_first().len() && x.drop_first()[i] == c;
                assert(x[i + 1] == c);
            }
        }
        lemma_split_from_plain(x.drop_first(), r, c, cur.push(x[0]));
        assert(cur.push(x[0]) + x.drop_first() =~= cur + x);
    }
}

/// An ETA written as hours, minutes and seconds, each a number, stands for
/// hours times 3600 plus minutes times 60 plus seconds.
pub proof fn lemma_eta_clock(h: Seq<char>, m: Seq<char>, s: Seq<char>)
    requires
        !h.contains(':'),
        !m.contains(':'),
        !s.contains(':'),
        parse_u64_seq(h).is_some(),
        parse_u64_seq(m).is_some(),
        parse_u64_seq(s).is_some(),
    ensures
        eta_seconds(h + seq![':'] + m + seq![':'] + s) == parse_u64_seq(h).unwrap() * 3600
            + parse_u64_seq(m).unwrap() * 60 + parse_u64_seq(s).unwrap(),
{
    let e = Seq::<char>::empty();
    let text = h + seq![':'] + m + seq![':'] + s;
    let colon_rest = seq![':'] + m + seq![':'] + s;
    assert(text =~= h + colon_rest);
    lemma_split_from_plain(h, colon_rest, ':', e);
    assert(e + h =~= h);
    let rest1 = m + seq![':'] + s;
    assert(colon_rest.drop_first() =~= rest1);
    assert(split_from(colon_rest, ':', h) == seq![h] + split_from(rest1, ':', e));
    let colon_s = seq![':'] + s;
    assert(rest1 =~= m + colon_s);
    lemma_split_from_plain(m, colon_s, ':', e);
    assert(e + m =~= m);
    assert(colon_s.drop_first() =~= s);
    assert(split_from(colon_s, ':', m) == seq![m] + split_from(s, ':', e));
    assert(s =~= s + e);
    lemma_split_from_plain(s, e, ':', e);
    assert(e + s =~= s);
    assert(split_from(e, ':', s) == seq![s]);
    let parts = split_seq(text, ':');
    assert(parts =~= seq![h, m, s]);
    reveal_with_fuel(eta_from, 4);
    assert(eta_from(parts, 3, 1) == parse_u64_seq(s).unwrap() * 1 + (parse_u64_seq(m).unwrap()
        * 60 + (parse_u64_seq(h).unwrap() * 3600 + 0)));
}

/// Converts a yt-dlp ETA such as `01:02:03` into seconds.
pub fn parse_eta(eta_str: &str) -> (r: u64)
    requires
        eta_fits(eta_str@),
    ensures
        r as nat == eta_seconds(eta_str@),
{
    let v = chars_of(eta_str);
    let parts = split_chars(v.as_slice(), ':');
    let ghost ps = split_seq(eta_str@, ':');
    let ghost total = eta_seconds(eta_str@);
    let ghost all_count = parsed_count(ps, ps.len() as int);
    let mut seconds: u64 = 0;
    let mut multiplier: u64 = 1;
    let ghost mut used: nat = 0;
    let mut i: usize = parts.len();
    while i > 0
        invariant
            char_vec_views(parts@) == ps,
            ps.len() == parts@.len(),
            i <= parts@.len(),
            total <= u64::MAX,
            all_count <= 10,
            all_count == parsed_count(ps, i as int) + used,
            multiplier as nat == pow60(used),
            total == seconds + eta_from(ps, i as int, multiplier as nat),
        decreases i,
    {
        let ghost m = multiplier as nat;
        assert(parts@[i - 1]@ == ps[i - 1]);
        let pv = parse_u64(parts[i - 1].as_slice());
        match pv {
            Some(val) => {
                assert(eta_from(ps, i as int, m) == val * m + eta_from(ps, i - 1, m * 60));
                assert(val * m <= total) by (nonlinear_arith)
                    requires
                        total == seconds + (val * m + eta_from(ps, i - 1, m * 60)),
                ;
                seconds = seconds + val * multiplier;
                proof {
                    assert(parsed_count(ps, i as int) == parsed_count(ps, i - 1) + 1);
                    lemma_pow60_mono(used + 1, 10);
                    lemma_pow60_ten();
                    assert(pow60(used + 1) == 60 * pow60(used));
                }
                multiplier = multiplier * 60;
                proof {
                    used = used + 1;
                }
            },
            None => {
                assert(eta_from(ps, i as int, m) == eta_from(ps, i - 1, m));
            },
        }
        i = i - 1;
    }
    seconds
}

/// `parse_eta` where it stays within 64-bit arithmetic, `None` elsewhere.
pub fn try_parse_eta(eta_str: &str) -> (r: Option<u64>)
    ensures
        r.is_some() == eta_fits(eta_str@),
        r.is_some() ==> r.unwrap() as nat == eta_seconds(eta_str@),
{
    let v = chars_of(eta_str);
    let parts = split_chars(v.as_slice(), ':');
    let ghost ps = split_seq(eta_str@, ':');
    let mut seconds: u64 = 0;
    let mut multiplier: u64 = 1;
    let mut count: u64 = 0;
    let mut i: usize = parts.len();
    while i > 0
        invariant
            char_vec_views(parts@) == ps,
            ps.len() == parts@.len(),
            i <= parts@.len(),
            count <= 10,
            ps == split_seq(eta_str@, ':'),
            multiplier as nat == pow60(count as nat),
            eta_seconds(eta_str@) == seconds + eta_from(ps, i as int, multiplier as nat),
            parsed_count(ps, ps.len() as int) == parsed_count(ps, i as int) + count,
        decreases i,
    {
        let ghost m = multiplier as nat;
        assert(parts@[i - 1]@ == ps[i - 1]);
        match parse_u64(parts[i - 1].as_slice()) {
            Some(val) => {
                if count == 10 {
                    proof {
                        assert(parsed_count(ps, i as int) == parsed_count(ps, i - 1) + 1);
                    }
                    return None;
                }
                assert(eta_from(ps, i as int, m) == val * m + eta_from(ps, i - 1, m * 60));
                proof {
                    lemma_pow60_mono(count as nat + 1, 10);
                    lemma_pow60_ten();
                    assert(pow60(count as nat + 1) == 60 * pow60(count as nat));
                }
                assert(val as u128 * multiplier as u128 <= 0xffff_ffff_ffff_ffffu128
                    * 0xffff_ffff_ffff_ffffu128) by (nonlinear_arith)
                    requires
                        val <= 0xffff_ffff_ffff_ffffu64,
                        multiplier <= 0xffff_ffff_ffff_ffffu64,
                ;
                let prod = val as u128 * multiplier as u128;
                let sum = seconds as u128 + prod;
                if sum > u64::MAX as u128 {
                    assert(eta_seconds(eta_str@) >= sum);
                    return None;
                }
                seconds = sum as u64;
                multiplier = multiplier * 60;
                count = count + 1;
            },
            None => {
                assert(eta_from(ps, i as int, m) == eta_from(ps, i - 1, m));
            },
        }
        i = i - 1;
    }
    Some(seconds)
}

/// The byte multiplier a yt-dlp size unit stands for: a unit mentioning `G`
/// counts 2^30, one mentioning `M` 2^20, one mentioning `K` 2^10, others 1.
pub open spec fn unit_multiplier(unit: Seq<char>) -> u64 {
    if contains_seq(unit, "GiB"@) || unit.contains('G') {
        1073741824
    } else if contains_seq(unit, "MiB"@) || unit.contains('M') {
        1048576
    } else if contains_seq(unit, "KiB"@) || unit.contains('K') {
        1024
    } else {
        1
    }
}

/// The multiplier that turns a size or speed figure in `unit` into bytes.
pub fn size_unit_multiplier(unit: &str) -> (r: u64)
    ensures
        r == unit_multiplier(unit@),
{
    let u = chars_of(unit);
    let gib = chars_of("GiB");
    let mib = chars_of("MiB");
    let kib = chars_of("KiB");
    if contains_chars(u.as_slice(), gib.as_slice()) || contains_char(u.as_slice(), 'G') {
        1073741824
    } else if contains_chars(u.as_slice(), mib.as_slice()) || contains_char(u.as_slice(), 'M') {
        1048576
    } else if contains_chars(u.as_slice(), kib.as_slice()) || contains_char(u.as_slice(), 'K') {
        1024
    } else {
        1
    }
}


/// The yt-dlp format selector for a requested format. When audio and video
/// are kept apart, `+` joins become `,` lists and a lone format gets
/// `,bestaudio`; otherwise `,` lists become `+` joins and a lone format gets
/// `+bestaudio`. `best` stays as it is.
pub open spec fn format_selector(id: Seq<char>, split: bool) -> Seq<char> {
    if split {
        if id.contains('+') {
            replace_seq(id, seq!['+'], seq![','])
        } else if !id.contains(',') && id != "best"@ {
            id + ",bestaudio"@
        } else {
            id
        }
    } else {
        if id.contains(',') {
            replace_seq(id, seq![','], seq!['+'])
        } else if !id.contains('+') && id != "best"@ {
            id + "+bestaudio"@
        } else {
            id
        }
    }
}

proof fn lemma_replace_char_removes(s: Seq<char>, a: char, b: char)
    requires
        a != b,
    ensures
        !replace_seq(s, seq![a], seq![b]).contains(a),
    decreases s.len(),
{
    let r = replace_seq(s, seq![a], seq![b]);
    if s.len() >= 1 {
        let rest = replace_seq(s.skip(1), seq![a], seq![b]);
        lemma_replace_char_removes(s.skip(1), a, b);
        assert(s.take(1) =~= seq![s[0]]);
        let head = if s[0] == a {
            b
        } else {
            s[0]
        };
        assert(r == seq![head] + rest);
        assert forall|i: int| 0 <= i < r.len() implies r[i] != a by {
            if i > 0 {
                assert(r[i] == rest[i - 1]);
                if rest[i - 1] == a {
                    assert(rest.contains(a));
                }
            }
        }
    }
}

/// Kept apart, audio and video are never joined: the selector holds no
/// `+`. Merged, they are never listed apart: it holds no `,`.
pub proof fn lemma_format_selector_joins(id: Seq<char>)
    ensures
        !format_selector(id, true).contains('+'),
        !format_selector(id, false).contains(','),
{
    reveal_strlit(",bestaudio");
    reveal_strlit("+bestaudio");
    lemma_replace_char_removes(id, '+', ',');
    lemma_replace_char_removes(id, ',', '+');
    let split = format_selector(id, true);
    if !id.contains('+') && !id.contains(',') && id != "best"@ {
        assert forall|i: int| 0 <= i < split.len() implies split[i] != '+' by {
            if i >= id.len() {
                assert(split[i] == ",bestaudio"@[i - id.len()]);
            } else {
                assert(split[i] == id[i]);
            }
        }
    }
    let merged = format_selector(id, false);
    if !id.contains(',') && !id.contains('+') && id != "best"@ {
        assert forall|i: int| 0 <= i < merged.len() implies merged[i] != ',' by {
            if i >= id.len() {
                assert(merged[i] == "+bestaudio"@[i - id.len()]);
            } else {
                assert(merged[i] == id[i]);
            }
        }
    }
}

proof fn lemma_replace_char_is_map(s: Seq<char>, a: char, b: char)
    ensures
        replace_seq(s, seq![a], seq![b]) == s.map_values(|c: char| if c == a { b } else { c }),
    decreases s.len(),
{
    let m = s.map_values(|c: char| if c == a { b } else { c });
    if s.len() >= 1 {
        lemma_replace_char_is_map(s.skip(1), a, b);
        assert(s.take(1) =~= seq![s[0]]);
        let head = if s[0] == a {
            b
        } else {
            s[0]
        };
        assert(replace_seq(s, seq![a], seq![b]) == seq![head] + replace_seq(s.skip(1), seq![a], seq![b]));
        assert(seq![head] + s.skip(1).map_values(|c: char| if c == a { b } else { c }) =~= m);
    } else {
        assert(m =~= s);
    }
}

/// The format selector in words: `best` stays `best`; a single format
/// gets the best audio joined (`+bestaudio`) or listed beside it
/// (`,bestaudio`); otherwise, when merging, every `,` becomes `+`, and when
/// keeping audio and video apart, every `+` becomes `,`, the rest of the
/// selector kept character for character.
pub proof fn lemma_format_selector_in_words(id: Seq<char>)
    ensures
        id == "best"@ ==> format_selector(id, true) == id && format_selector(id, false) == id,
        !id.contains('+') && !id.contains(',') && id != "best"@ ==> format_selector(id, false)
            == id + "+bestaudio"@ && format_selector(id, true) == id + ",bestaudio"@,
        id.contains(',') ==> format_selector(id, false) == id.map_values(
            |c: char| if c == ',' { '+' } else { c },
        ),
        id.contains('+') ==> format_selector(id, true) == id.map_values(
            |c: char| if c == '+' { ',' } else { c },
        ),
        id.contains('+') && !id.contains(',') ==> format_selector(id, false) == id,
        id.contains(',') && !id.contains('+') ==> format_selector(id, true) == id,
{
    lemma_replace_char_is_map(id, ',', '+');
    lemma_replace_char_is_map(id, '+', ',');
    reveal_strlit("best");
    if id == "best"@ {
        assert(!id.contains('+')) by {
            if id.contains('+') {
                let i = choose|i: int| 0 <= i < id.len() && id[i] == '+';
            }
        }
        assert(!id.contains(',')) by {
            if id.contains(',') {
                let i = choose|i: int| 0 <= i < id.len() && id[i] == ',';
            }
        }
    }
}

/// Builds the `-f` format selector handed to yt-dlp.
pub fn format_selector_for(format_id: &str, split_audio_video: bool) -> (r: String)
    ensures
        r@ == format_selector(format_id@, split_audio_video),
{
    let id = chars_of(format_id);
    let has_plus = contains_char(id.as_slice(), '+');
    let has_comma = contains_char(id.as_slice(), ',');
    let is_best = str_eq(format_id, "best");
    if split_audio_video {
        if has_plus {
            let plus = vec!['+'];
            let comma = vec![','];
            let r = replace_chars(id.as_slice(), plus.as_slice(), comma.as_slice());
            assert(plus@ =~= seq!['+']);
            assert(comma@ =~= seq![',']);
            string_from_chars(r.as_slice())
        } else if !has_comma && !is_best {
            String::from_str(format_id).concat(",bestaudio")
        } else {
            String::from_str(format_id)
        }
    } else {
        if has_comma {
            let plus = vec!['+'];
            let comma = vec![','];
            let r = replace_chars(id.as_slice(), comma.as_slice(), plus.as_slice());
            assert(plus@ =~= seq!['+']);
            assert(comma@ =~= seq![',']);
            string_from_chars(r.as_slice())
        } else if !has_plus && !is_best {
            String::from_str(format_id).concat("+bestaudio")
        } else {
            String::from_str(format_id)
        }
    }
}

/// The views of a sequence of strings.
pub open spec fn string_views(v: Seq<String>) -> Seq<Seq<char>> {
    v.map_values(|s: String| s@)
}

/// The view of an optional string.
pub open spec fn opt_view(o: Option<String>) -> Option<Seq<char>> {
    match o {
        Some(s) => Some(s@),
        None => None,
    }
}

/// The views of an optional list of string pairs.
pub open spec fn opt_pair_views(o: Option<Vec<(String, String)>>) -> Option<Seq<(Seq<char>, Seq<char>)>> {
    match o {
        Some(h) => Some(pair_views(h@)),
        None => None,
    }
}

/// The views of a sequence of string pairs.
pub open spec fn pair_views(v: Seq<(String, String)>) -> Seq<(Seq<char>, Seq<char>)> {
    v.map_values(|p: (String, String)| (p.0@, p.1@))
}

fn push_lit(args: &mut Vec<String>, lit: &str)
    ensures
        string_views(final(args)@) == string_views(old(args)@).push(lit@),
{
    let ghost before = string_views(args@);
    args.push(String::from_str(lit));
    assert(string_views(args@) =~= before.push(lit@));
}

fn push_string(args: &mut Vec<String>, s: String)
    ensures
        string_views(final(args)@) == string_views(old(args)@).push(s@),
{
    let ghost before = string_views(args@);
    let ghost sv = s@;
    args.push(s);
    assert(string_views(args@) =~= before.push(sv));
}

/// `--cookies <file>` when cookies are on and the cookie file exists.
pub open spec fn cookie_args(use_cookie: bool, cookie_file: Option<String>) -> Seq<Seq<char>> {
    if use_cookie && cookie_file.is_some() {
        seq!["--cookies"@, cookie_file.unwrap()@]
    } else {
        Seq::empty()
    }
}

/// `--proxy <url>` when a proxy is set (not blank).
pub open spec fn proxy_args(proxy_url: Seq<char>) -> Seq<Seq<char>> {
    if !is_blank_seq(proxy_url) {
        seq!["--proxy"@, proxy_url]
    } else {
        Seq::empty()
    }
}

/// The yt-dlp command line that reads a link's metadata as one JSON document.
pub open spec fn media_info_arg_list(
    url: Seq<char>,
    config: Config,
    cookie_file: Option<String>,
) -> Seq<Seq<char>> {
    seq![
        "--dump-single-json"@,
        "--flat-playlist"@,
        "--no-warnings"@,
        "--ignore-no-formats-error"@,
        url,
    ] + cookie_args(config.use_cookie, cookie_file) + proxy_args(config.proxy_url@)
}

fn push_cookie_and_proxy(
    args: &mut Vec<String>,
    config: &Config,
    cookie_file: &Option<String>,
)
    ensures
        string_views(final(args)@) == string_views(old(args)@) + cookie_args(
            config.use_cookie,
            *cookie_file,
        ) + proxy_args(config.proxy_url@),
{
    let ghost start = string_views(args@);
    if config.use_cookie {
        match cookie_file {
            Some(c) => {
                push_lit(args, "--cookies");
                push_string(args, c.clone());
            },
            None => {},
        }
    }
    assert(string_views(args@) =~= start + cookie_args(config.use_cookie, *cookie_file));
    let ghost mid = string_views(args@);
    if !is_blank(config.proxy_url.as_str()) {
        push_lit(args, "--proxy");
        push_string(args, config.proxy_url.clone());
    }
    assert(string_views(args@) =~= mid + proxy_args(config.proxy_url@));
}

/// The arguments with which yt-dlp dumps a link's metadata. `cookie_file` is
/// the built-in cookie file where it exists.
pub fn media_info_args(url: &str, config: &Config, cookie_file: &Option<String>) -> (r: Vec<
    String,
>)
    ensures
        string_views(r@) == media_info_arg_list(url@, *config, *cookie_file),
{
    let mut args: Vec<String> = Vec::new();
    push_lit(&mut args, "--dump-single-json");
    push_lit(&mut args, "--flat-playlist");
    push_lit(&mut args, "--no-warnings");
    push_lit(&mut args, "--ignore-no-formats-error");
    push_string(&mut args, String::from_str(url));
    let ghost base = string_views(args@);
    assert(base =~= seq![
        "--dump-single-json"@,
        "--flat-playlist"@,
        "--no-warnings"@,
        "--ignore-no-formats-error"@,
        url@,
    ]);
    push_cookie_and_proxy(&mut args, config, cookie_file);
    args
}

/// `--yes-playlist --playlist-items <items>` for a non-empty item list,
/// `--no-playlist` otherwise.
pub open spec fn playlist_args(items: Option<String>) -> Seq<Seq<char>> {
    match items {
        Some(s) => if s@.len() > 0 {
            seq!["--yes-playlist"@, "--playlist-items"@, s@]
        } else {
            seq!["--no-playlist"@]
        },
        None => seq!["--no-playlist"@],
    }
}

/// Where the download goes: with metadata, a per-title folder and the side
/// files; otherwise straight into the download folder.
pub open spec fn output_args(include_metadata: bool, save_dir: Seq<char>) -> Seq<Seq<char>> {
    if include_metadata {
        seq![
            "-o"@,
            save_dir + "/%(title)s/%(title)s.%(ext)s"@,
            "--write-thumbnail"@,
            "--write-info-json"@,
            "--write-description"@,
            "--write-subs"@,
            "--write-auto-subs"@,
            "--embed-metadata"@,
            "--embed-thumbnail"@,
        ]
    } else {
        seq!["-P"@, save_dir]
    }
}

/// A header value with its line breaks (`\n`, then `\r`) removed.
pub open spec fn strip_line_breaks(v: Seq<char>) -> Seq<char> {
    replace_seq(replace_seq(v, seq!['\n'], Seq::empty()), seq!['\r'], Seq::empty())
}

/// `--add-header "<key>: <value>"` for each header, in the given order.
pub open spec fn header_args(pairs: Seq<(Seq<char>, Seq<char>)>) -> Seq<Seq<char>>
    decreases pairs.len(),
{
    if pairs.len() == 0 {
        Seq::empty()
    } else {
        header_args(pairs.drop_last()) + seq![
            "--add-header"@,
            pairs.last().0 + ": "@ + strip_line_breaks(pairs.last().1),
        ]
    }
}

/// The full yt-dlp download command line for a task, given the ffmpeg
/// location, the cookie file where it exists and the task's extra headers
/// (`None` where it has none or they do not parse).
pub open spec fn download_arg_list(
    config: Config,
    task: Task,
    ffmpeg_path: Seq<char>,
    cookie_file: Option<String>,
    headers: Option<Seq<(Seq<char>, Seq<char>)>>,
) -> Seq<Seq<char>> {
    let split = config.split_audio_video;
    let threads: nat = if config.max_threads_per_task == 0 {
        1
    } else {
        config.max_threads_per_task as nat
    };
    seq!["-f"@, format_selector(task.format_id@, split)] + (if !split {
        seq!["--merge-output-format"@, "mp4"@, "--ffmpeg-location"@, ffmpeg_path]
    } else {
        Seq::empty()
    }) + cookie_args(config.use_cookie, cookie_file) + proxy_args(config.proxy_url@)
        + playlist_args(task.playlist_items) + output_args(
        config.include_metadata,
        config.default_download_path@,
    ) + (match headers {
        Some(h) => header_args(h),
        None => Seq::empty(),
    }) + seq![
        "--concurrent-fragments"@,
        decimal(threads),
        "--newline"@,
        "--no-colors"@,
        task.url@,
    ]
}

/// Downloads go through the configured proxy: two settings that differ
/// only in the proxy, one blank and one set, give the same yt-dlp download
/// command line except that the second holds `--proxy` followed right away
/// by the proxy address, at one place.
#[verifier::spinoff_prover]
pub proof fn lemma_proxy_reaches_downloads(
    a: Config,
    b: Config,
    task: Task,
    ffmpeg_path: Seq<char>,
    cookie_file: Option<String>,
    headers: Option<Seq<(Seq<char>, Seq<char>)>>,
)
    requires
        is_blank_seq(a.proxy_url@),
        !is_blank_seq(b.proxy_url@),
        b == (Config { proxy_url: b.proxy_url, ..a }),
    ensures
        ({
            let without = download_arg_list(a, task, ffmpeg_path, cookie_file, headers);
            let with = download_arg_list(b, task, ffmpeg_path, cookie_file, headers);
            exists|k: int|
                0 <= k <= without.len() && with == #[trigger] without.take(k) + seq![
                    "--proxy"@,
                    b.proxy_url@,
                ] + without.skip(k)
        }),
{
    let without = download_arg_list(a, task, ffmpeg_path, cookie_file, headers);
    let with = download_arg_list(b, task, ffmpeg_path, cookie_file, headers);
    let split = a.split_audio_video;
    let threads: nat = if a.max_threads_per_task == 0 {
        1
    } else {
        a.max_threads_per_task as nat
    };
    let h1 = seq!["-f"@, format_selector(task.format_id@, split)];
    let h2: Seq<Seq<char>> = if !split {
        seq!["--merge-output-format"@, "mp4"@, "--ffmpeg-location"@, ffmpeg_path]
    } else {
        Seq::empty()
    };
    let c = cookie_args(a.use_cookie, cookie_file);
    let pl = playlist_args(task.playlist_items);
    let o = output_args(a.include_metadata, a.default_download_path@);
    let hd: Seq<Seq<char>> = match headers {
        Some(h) => header_args(h),
        None => Seq::empty(),
    };
    let t = seq!["--concurrent-fragments"@, decimal(threads), "--newline"@, "--no-colors"@, task.url@];
    let pair = seq!["--proxy"@, b.proxy_url@];
    assert(proxy_args(a.proxy_url@) == Seq::<Seq<char>>::empty());
    assert(proxy_args(b.proxy_url@) == pair);
    assert(without == h1 + h2 + c + Seq::<Seq<char>>::empty() + pl + o + hd + t);
    assert(with == h1 + h2 + c + pair + pl + o + hd + t);
    let head = h1 + h2 + c;
    let tail = pl + o + hd + t;
    lemma_regroup(head, Seq::<Seq<char>>::empty(), pl, o, hd, t);
    lemma_regroup(head, pair, pl, o, hd, t);
    assert(head + Seq::<Seq<char>>::empty() =~= head);
    lemma_insert_pair(head, tail, pair);
}

/// The yt-dlp download command line starts with `-f` and the format
/// selector, ends with `--concurrent-fragments`, the connection count (at
/// least 1), `--newline`, `--no-colors` and the task's URL; when merging it
/// names ffmpeg right after the selector; it passes the cookie file where
/// cookies are on and the file exists, and asks for the chosen playlist
/// items where there are any.
pub proof fn lemma_download_args_frame(
    config: Config,
    task: Task,
    ffmpeg_path: Seq<char>,
    cookie_file: Option<String>,
    headers: Option<Seq<(Seq<char>, Seq<char>)>>,
)
    ensures
        ({
            let l = download_arg_list(config, task, ffmpeg_path, cookie_file, headers);
            let n = l.len();
            &&& n >= 7
            &&& l[0] == "-f"@
            &&& l[1] == format_selector(task.format_id@, config.split_audio_video)
            &&& !config.split_audio_video ==> l[2] == "--merge-output-format"@ && l[3] == "mp4"@
                && l[4] == "--ffmpeg-location"@ && l[5] == ffmpeg_path
            &&& l[n - 5] == "--concurrent-fragments"@
            &&& l[n - 4] == decimal(if config.max_threads_per_task == 0 {
                1
            } else {
                config.max_threads_per_task as nat
            })
            &&& l[n - 3] == "--newline"@
            &&& l[n - 2] == "--no-colors"@
            &&& l[n - 1] == task.url@
            &&& config.use_cookie && cookie_file.is_some() ==> exists|k: int|
                0 <= k < n - 1 && #[trigger] l[k] == "--cookies"@ && l[k + 1] == cookie_file.unwrap()@
            &&& task.playlist_items.is_some() && task.playlist_items.unwrap()@.len() > 0 ==> exists|
                k: int,
            |
                0 <= k < n - 1 && #[trigger] l[k] == "--playlist-items"@ && l[k + 1]
                    == task.playlist_items.unwrap()@
        }),
{
    let l = download_arg_list(config, task, ffmpeg_path, cookie_file, headers);
    let split = config.split_audio_video;
    let threads: nat = if config.max_threads_per_task == 0 {
        1
    } else {
        config.max_threads_per_task as nat
    };
    let h1 = seq!["-f"@, format_selector(task.format_id@, split)];
    let h2: Seq<Seq<char>> = if !split {
        seq!["--merge-output-format"@, "mp4"@, "--ffmpeg-location"@, ffmpeg_path]
    } else {
        Seq::empty()
    };
    let c = cookie_args(config.use_cookie, cookie_file);
    let pr = proxy_args(config.proxy_url@);
    let pl = playlist_args(task.playlist_items);
    let o = output_args(config.include_metadata, config.default_download_path@);
    let hd: Seq<Seq<char>> = match headers {
        Some(h) => header_args(h),
        None => Seq::empty(),
    };
    let t = seq!["--concurrent-fragments"@, decimal(threads), "--newline"@, "--no-colors"@, task.url@];
    assert(l == h1 + h2 + c + pr + pl + o + hd + t);
    let front = h1 + h2;
    let mid1 = front + c;
    let mid2 = mid1 + pr + pl;
    let body = mid2 + o + hd;
    assert(l == body + t);
    assert(l.len() == body.len() + 5);
    assert(l[l.len() - 1] == t[4]);
    assert(l[l.len() - 5] == t[0]);
    assert(l[l.len() - 4] == t[1]);
    assert(l[l.len() - 3] == t[2]);
    assert(l[l.len() - 2] == t[3]);
    assert(l[0] == front[0] && l[1] == front[1]);
    if !split {
        assert(l[2] == front[2] && l[3] == front[3] && l[4] == front[4] && l[5] == front[5]);
    }
    if config.use_cookie && cookie_file.is_some() {
        let k = front.len() as int;
        assert(l[k] == c[0] && l[k + 1] == c[1]);
    }
    if task.playlist_items.is_some() && task.playlist_items.unwrap()@.len() > 0 {
        let k = (mid1 + pr).len() as int + 1;
        assert(pl[1] == "--playlist-items"@);
        assert(l[k] == pl[1] && l[k + 1] == pl[2]);
    }
}

proof fn lemma_regroup(
    x: Seq<Seq<char>>,
    m: Seq<Seq<char>>,
    p: Seq<Seq<char>>,
    o: Seq<Seq<char>>,
    hd: Seq<Seq<char>>,
    t: Seq<Seq<char>>,
)
    ensures
        x + m + p + o + hd + t == x + m + (p + o + hd + t),
{
    assert(x + m + p + o + hd + t =~= x + m + (p + o + hd + t));
}

proof fn lemma_insert_pair(head: Seq<Seq<char>>, tail: Seq<Seq<char>>, pair: Seq<Seq<char>>)
    ensures
        head + pair + tail == (head + tail).take(head.len() as int) + pair + (head + tail).skip(
            head.len() as int,
        ),
{
    assert((head + tail).take(head.len() as int) =~= head);
    assert((head + tail).skip(head.len() as int) =~= tail);
}

pub(crate) fn strip_line_breaks_str(v: &str) -> (r: String)
    ensures
        r@ == strip_line_breaks(v@),
{
    let cs = chars_of(v);
    let nl = vec!['\n'];
    let cr = vec!['\r'];
    let none: Vec<char> = Vec::new();
    assert(nl@ =~= seq!['\n']);
    assert(cr@ =~= seq!['\r']);
    assert(none@ =~= Seq::<char>::empty());
    let a = replace_chars(cs.as_slice(), nl.as_slice(), none.as_slice());
    let b = replace_chars(a.as_slice(), cr.as_slice(), none.as_slice());
    string_from_chars(b.as_slice())
}

fn push_merge_args(args: &mut Vec<String>, split: bool, ffmpeg_path: &str)
    ensures
        string_views(final(args)@) == string_views(old(args)@) + (if !split {
            seq!["--merge-output-format"@, "mp4"@, "--ffmpeg-location"@, ffmpeg_path@]
        } else {
            Seq::empty()
        }),
{
    let ghost s1 = string_views(args@);
    if !split {
        push_lit(args, "--merge-output-format");
        push_lit(args, "mp4");
        push_lit(args, "--ffmpeg-location");
        push_string(args, String::from_str(ffmpeg_path));
    }
    assert(string_views(args@) =~= s1 + (if !split {
        seq!["--merge-output-format"@, "mp4"@, "--ffmpeg-location"@, ffmpeg_path@]
    } else {
        Seq::empty()
    }));
}

fn push_playlist_args(args: &mut Vec<String>, items: &Option<String>)
    ensures
        string_views(final(args)@) == string_views(old(args)@) + playlist_args(*items),
{
    let ghost s3 = string_views(args@);
    match items {
        Some(items) => {
            if !items.as_str().is_empty() {
                push_lit(args, "--yes-playlist");
                push_lit(args, "--playlist-items");
                push_string(args, items.clone());
            } else {
                push_lit(args, "--no-playlist");
            }
        },
        None => {
            push_lit(args, "--no-playlist");
        },
    }
    assert(string_views(args@) =~= s3 + playlist_args(*items));
}

fn push_output_args(args: &mut Vec<String>, include_metadata: bool, save_dir: String)
    ensures
        string_views(final(args)@) == string_views(old(args)@) + output_args(
            include_metadata,
            save_dir@,
        ),
{
    let ghost s4 = string_views(args@);
    if include_metadata {
        push_lit(args, "-o");
        push_string(args, save_dir.concat("/%(title)s/%(title)s.%(ext)s"));
        push_lit(args, "--write-thumbnail");
        push_lit(args, "--write-info-json");
        push_lit(args, "--write-description");
        push_lit(args, "--write-subs");
        push_lit(args, "--write-auto-subs");
        push_lit(args, "--embed-metadata");
        push_lit(args, "--embed-thumbnail");
    } else {
        push_lit(args, "-P");
        push_string(args, save_dir);
    }
    assert(string_views(args@) =~= s4 + output_args(include_metadata, save_dir@));
}

fn push_header_args(args: &mut Vec<String>, headers: &Option<Vec<(String, String)>>)
    ensures
        string_views(final(args)@) == string_views(old(args)@) + match opt_pair_views(*headers) {
            Some(h) => header_args(h),
            None => Seq::empty(),
        },
{
    let ghost s5 = string_views(args@);
    match headers {
        Some(h) => {
            let mut k: usize = 0;
            assert(pair_views(h@).take(0) =~= Seq::<(Seq<char>, Seq<char>)>::empty());
            assert(s5 + header_args(pair_views(h@).take(0)) =~= s5);
            while k < h.len()
                invariant
                    k <= h@.len(),
                    string_views(args@) == s5 + header_args(pair_views(h@).take(k as int)),
                decreases h@.len() - k,
            {
                push_lit(args, "--add-header");
                let key = String::from_str(h[k].0.as_str());
                let line = key.concat(": ").concat(strip_line_breaks_str(h[k].1.as_str()).as_str());
                push_string(args, line);
                let ghost t = pair_views(h@).take(k + 1);
                assert(t.drop_last() =~= pair_views(h@).take(k as int));
                assert(t.last() == (h@[k as int].0@, h@[k as int].1@));
                assert(string_views(args@) =~= s5 + header_args(t));
                k = k + 1;
            }
            assert(pair_views(h@).take(h@.len() as int) =~= pair_views(h@));
        },
        None => {
            assert(string_views(args@) =~= s5 + Seq::<Seq<char>>::empty());
        },
    }
}

fn push_tail_args(args: &mut Vec<String>, max_threads: u8, url: &String)
    ensures
        string_views(final(args)@) == string_views(old(args)@) + seq![
            "--concurrent-fragments"@,
            decimal(if max_threads == 0 { 1 } else { max_threads as nat }),
            "--newline"@,
            "--no-colors"@,
            url@,
        ],
{
    let ghost s6 = string_views(args@);
    let threads: u64 = if max_threads == 0 {
        1
    } else {
        max_threads as u64
    };
    push_lit(args, "--concurrent-fragments");
    let tv = decimal_chars(threads);
    push_string(args, string_from_chars(tv.as_slice()));
    push_lit(args, "--newline");
    push_lit(args, "--no-colors");
    push_string(args, url.clone());
    assert(string_views(args@) =~= s6 + seq![
        "--concurrent-fragments"@,
        decimal(threads as nat),
        "--newline"@,
        "--no-colors"@,
        url@,
    ]);
}

/// The yt-dlp download arguments for a task, with its headers given.
pub fn download_args_with_headers(
    config: &Config,
    task: &Task,
    ffmpeg_path: &str,
    cookie_file: &Option<String>,
    headers: &Option<Vec<(String, String)>>,
) -> (r: Vec<String>)
    ensures
        string_views(r@) == download_arg_list(
            *config,
            *task,
            ffmpeg_path@,
            *cookie_file,
            opt_pair_views(*headers),
        ),
{
    let split = config.split_audio_video;
    let mut args: Vec<String> = Vec::new();
    push_lit(&mut args, "-f");
    push_string(&mut args, format_selector_for(task.format_id.as_str(), split));
    let ghost a1 = string_views(args@);
    assert(a1 =~= seq!["-f"@, format_selector(task.format_id@, split)]);
    push_merge_args(&mut args, split, ffmpeg_path);
    push_cookie_and_proxy(&mut args, config, cookie_file);
    push_playlist_args(&mut args, &task.playlist_items);
    push_output_args(&mut args, config.include_metadata, task_save_dir(config));
    push_header_args(&mut args, headers);
    push_tail_args(&mut args, config.max_threads_per_task, &task.url);
    let ghost hv = opt_pair_views(*headers);
    assert(string_views(args@) =~= download_arg_list(
        *config,
        *task,
        ffmpeg_path@,
        *cookie_file,
        hv,
    ));
    args
}

fn task_save_dir(config: &Config) -> (r: String)
    ensures
        r@ == config.default_download_path@,
{
    config.default_download_path.clone()
}


/// What `serde_json::from_str::<HashMap<String, String>>` gives: the
/// key-value pairs of a JSON object of strings, `None` where the text is not
/// one.
pub uninterp spec fn json_string_map(json: Seq<char>) -> Option<Map<Seq<char>, Seq<char>>>;

/// `pairs` lists the entries of `m`, each key once, in some order.
pub open spec fn lists_map(pairs: Seq<(Seq<char>, Seq<char>)>, m: Map<Seq<char>, Seq<char>>) -> bool {
    &&& forall|i: int, j: int|
        0 <= i < j < pairs.len() ==> (#[trigger] pairs[i]).0 != (#[trigger] pairs[j]).0
    &&& forall|i: int|
        0 <= i < pairs.len() ==> m.contains_key((#[trigger] pairs[i]).0) && m[pairs[i].0]
            == pairs[i].1
    &&& forall|k: Seq<char>| #[trigger]
        m.contains_key(k) ==> exists|i: int| 0 <= i < pairs.len() && (#[trigger] pairs[i]).0 == k
}

/// `serde_json::from_str::<HashMap<String, String>>(json)`, its entries then
/// listed. The entries are the named function of the text; the order in
/// which the map is walked depends on the process's hash seed and is left
/// open.
#[verifier::external_body]
pub(crate) fn parse_string_map(json: &str) -> (r: Option<Vec<(String, String)>>)
    ensures
        r.is_some() == json_string_map(json@).is_some(),
        r.is_some() ==> lists_map(pair_views(r.unwrap()@), json_string_map(json@).unwrap()),
{
    match serde_json::from_str::<std::collections::HashMap<String, String>>(json) {
        Ok(m) => Some(m.into_iter().collect()),
        Err(_) => None,
    }
}

/// `h` is a listing of the extra headers a task carries: none where it has
/// no header text or the text is not a JSON object of strings.
pub open spec fn lists_task_headers(
    http_headers: Option<String>,
    h: Option<Seq<(Seq<char>, Seq<char>)>>,
) -> bool {
    match http_headers {
        None => h.is_none(),
        Some(j) => match json_string_map(j@) {
            None => h.is_none(),
            Some(m) => h.is_some() && lists_map(h.unwrap(), m),
        },
    }
}

/// The yt-dlp download arguments for a task: the format selector, merging
/// through ffmpeg unless audio and video are kept apart, cookies, proxy,
/// playlist selection, output place, the task's extra headers (in the order
/// the parsed header map yields them), fragment concurrency and the URL.
pub fn download_args(
    config: &Config,
    task: &Task,
    ffmpeg_path: &str,
    cookie_file: &Option<String>,
) -> (r: Vec<String>)
    ensures
        exists|h: Option<Seq<(Seq<char>, Seq<char>)>>|
            lists_task_headers(task.http_headers, h) && string_views(r@) == download_arg_list(
                *config,
                *task,
                ffmpeg_path@,
                *cookie_file,
                h,
            ),
{
    let headers: Option<Vec<(String, String)>> = match &task.http_headers {
        Some(j) => parse_string_map(j.as_str()),
        None => None,
    };
    let r = download_args_with_headers(config, task, ffmpeg_path, cookie_file, &headers);
    assert(lists_task_headers(task.http_headers, opt_pair_views(headers)));
    r
}


/// The fields of one playlist entry in yt-dlp's JSON output that are read;
/// a field that is absent or not of the expected JSON type is `None`.
#[derive(Debug, Clone)]
pub struct RawPlaylistEntry {
    pub title: Option<String>,
    pub fulltitle: Option<String>,
    pub name: Option<String>,
    pub id: Option<String>,
    pub url: Option<String>,
    pub playlist_index: Option<u64>,
}

/// The fields of yt-dlp's JSON metadata that are read; a field that is
/// absent or not of the expected JSON type is `None`.
#[derive(Debug, Clone)]
pub struct RawMediaMetadata {
    pub id: Option<String>,
    pub title: Option<String>,
    pub thumbnail: Option<String>,
    pub entries: Option<Vec<RawPlaylistEntry>>,
}

/// The text of an optional field, or `default` where it is absent.
pub open spec fn text_or(o: Option<String>, default: Seq<char>) -> Seq<char> {
    match o {
        Some(s) => s@,
        None => default,
    }
}

/// The title shown for a playlist entry: the first present of `title`,
/// `fulltitle`, `name`, `id` and `url`, or `Unknown`.
pub open spec fn entry_title(e: RawPlaylistEntry) -> Seq<char> {
    if e.title.is_some() {
        e.title.unwrap()@
    } else if e.fulltitle.is_some() {
        e.fulltitle.unwrap()@
    } else if e.name.is_some() {
        e.name.unwrap()@
    } else if e.id.is_some() {
        e.id.unwrap()@
    } else {
        text_or(e.url, "Unknown"@)
    }
}

/// The playlist position of the entry at index `i`: its own
/// `playlist_index` cut to 32 bits, or `i + 1`.
pub open spec fn entry_index(e: RawPlaylistEntry, i: int) -> u32 {
    match e.playlist_index {
        Some(x) => x as u32,
        None => (i + 1) as u32,
    }
}

/// `it` is the playlist item made of the entry `e` at index `i`.
pub open spec fn describes_entry(it: PlaylistItem, e: RawPlaylistEntry, i: int) -> bool {
    &&& it.playlist_index == Some(entry_index(e, i))
    &&& it.title@ == entry_title(e)
    &&& opt_view(it.url) == opt_view(e.url)
    &&& opt_view(it.id) == opt_view(e.id)
}

/// `info` is the media description made of the metadata `raw`: id and
/// thumbnail default to empty, the title to `Unknown Title`, no formats are
/// listed, and each playlist entry becomes an item.
pub open spec fn describes_media(info: MediaInfo, raw: RawMediaMetadata) -> bool {
    &&& info.id@ == text_or(raw.id, Seq::empty())
    &&& info.title@ == text_or(raw.title, "Unknown Title"@)
    &&& info.thumbnail@ == text_or(raw.thumbnail, Seq::empty())
    &&& info.formats@.len() == 0
    &&& match raw.entries {
        None => info.playlist_entries.is_none(),
        Some(es) => info.playlist_entries.is_some() && info.playlist_entries.unwrap()@.len()
            == es@.len() && forall|i: int|
            0 <= i < es@.len() ==> describes_entry(
                #[trigger] info.playlist_entries.unwrap()@[i],
                es@[i],
                i,
            ),
    }
}

/// Playlist entries without an index of their own are numbered by their
/// position, from 1: the entry at position `i` gets `i + 1`, so no two such
/// entries share a number.
pub proof fn lemma_unindexed_entries_numbered_by_position(
    info: MediaInfo,
    raw: RawMediaMetadata,
    i: int,
    j: int,
)
    requires
        describes_media(info, raw),
        raw.entries.is_some(),
        0 <= i < j < raw.entries.unwrap()@.len(),
        j < u32::MAX,
        raw.entries.unwrap()@[i].playlist_index.is_none(),
    ensures
        info.playlist_entries.unwrap()@[i].playlist_index == Some((i + 1) as u32),
        raw.entries.unwrap()@[j].playlist_index.is_none() ==> info.playlist_entries.unwrap()@[j].playlist_index
            == Some((j + 1) as u32) && info.playlist_entries.unwrap()@[i].playlist_index
            != info.playlist_entries.unwrap()@[j].playlist_index,
{
    let es = raw.entries.unwrap()@;
    let items = info.playlist_entries.unwrap()@;
    assert(describes_entry(items[i], es[i], i));
    assert(describes_entry(items[j], es[j], j));
}

/// What a media description holds of yt-dlp's metadata: the id and the
/// thumbnail, empty where absent; the title, `Unknown Title` where absent;
/// no formats; and, where the document lists entries, one item per entry in
/// the same order, titled by the entry's `title`, else `fulltitle`, `name`,
/// `id`, `url`, else `Unknown`, and keeping the entry's own index where it
/// has one.
pub proof fn lemma_media_description_fields(info: MediaInfo, raw: RawMediaMetadata, i: int)
    requires
        describes_media(info, raw),
    ensures
        raw.title.is_none() ==> info.title@ == "Unknown Title"@,
        raw.title.is_some() ==> info.title@ == raw.title.unwrap()@,
        raw.id.is_none() ==> info.id@.len() == 0,
        raw.thumbnail.is_none() ==> info.thumbnail@.len() == 0,
        info.formats@.len() == 0,
        raw.entries.is_none() <==> info.playlist_entries.is_none(),
        raw.entries.is_some() ==> info.playlist_entries.unwrap()@.len() == raw.entries.unwrap()@.len(),
        raw.entries.is_some() && 0 <= i < raw.entries.unwrap()@.len() ==> ({
            let e = raw.entries.unwrap()@[i];
            let it = info.playlist_entries.unwrap()@[i];
            &&& e.title.is_some() ==> it.title@ == e.title.unwrap()@
            &&& e.title.is_none() && e.fulltitle.is_some() ==> it.title@ == e.fulltitle.unwrap()@
            &&& e.title.is_none() && e.fulltitle.is_none() && e.name.is_none() && e.id.is_none()
                && e.url.is_none() ==> it.title@ == "Unknown"@
            &&& e.playlist_index.is_some() ==> it.playlist_index == Some(
                e.playlist_index.unwrap() as u32,
            )
        }),
{
    if raw.entries.is_some() && 0 <= i < raw.entries.unwrap()@.len() {
        assert(describes_entry(info.playlist_entries.unwrap()@[i], raw.entries.unwrap()@[i], i));
    }
}

fn clone_opt(o: &Option<String>) -> (r: Option<String>)
    ensures
        opt_view(r) == opt_view(*o),
{
    match o {
        Some(s) => Some(s.clone()),
        None => None,
    }
}

fn text_or_exec(o: &Option<String>, default: &str) -> (r: String)
    ensures
        r@ == text_or(*o, default@),
{
    match o {
        Some(s) => s.clone(),
        None => String::from_str(default),
    }
}

fn playlist_item_for(e: &RawPlaylistEntry, i: usize) -> (it: PlaylistItem)
    requires
        i < usize::MAX,
    ensures
        describes_entry(it, *e, i as int),
{
    let title = if e.title.is_some() {
        text_or_exec(&e.title, "")
    } else if e.fulltitle.is_some() {
        text_or_exec(&e.fulltitle, "")
    } else if e.name.is_some() {
        text_or_exec(&e.name, "")
    } else if e.id.is_some() {
        text_or_exec(&e.id, "")
    } else {
        text_or_exec(&e.url, "Unknown")
    };
    let idx: u32 = match e.playlist_index {
        Some(x) => x as u32,
        None => (i + 1) as u32,
    };
    PlaylistItem { playlist_index: Some(idx), title, url: clone_opt(&e.url), id: clone_opt(&e.id) }
}

/// Shapes yt-dlp's JSON metadata into a media description: id and thumbnail
/// default to empty, the title to `Unknown Title`; every playlist entry
/// becomes an item titled by its first present name field and numbered by
/// its own index or its position (from 1).
pub fn media_info_from_metadata(raw: &RawMediaMetadata) -> (info: MediaInfo)
    ensures
        describes_media(info, *raw),
{
    let playlist_entries = match &raw.entries {
        Some(es) => {
            let mut items: Vec<PlaylistItem> = Vec::new();
            let mut i: usize = 0;
            while i < es.len()
                invariant
                    i <= es@.len(),
                    items@.len() == i,
                    forall|j: int| 0 <= j < i ==> describes_entry(#[trigger] items@[j], es@[j], j),
                decreases es@.len() - i,
            {
                let it = playlist_item_for(&es[i], i);
                items.push(it);
                i = i + 1;
            }
            Some(items)
        },
        None => None,
    };
    let id = text_or_exec(&raw.id, "");
    let title = text_or_exec(&raw.title, "Unknown Title");
    let thumbnail = text_or_exec(&raw.thumbnail, "");
    proof {
        reveal_strlit("");
        assert(""@ =~= Seq::<char>::empty());
    }
    let info = MediaInfo { id, title, thumbnail, formats: Vec::<MediaFormat>::new(), playlist_entries };
    assert(info.id@ == text_or(raw.id, Seq::empty()));
    assert(info.formats@.len() == 0);
    info
}

/// What yt-dlp's metadata text gives: `serde_json::from_str` into a JSON
/// value and then the fields that are read (each `None` where absent or not
/// of the expected JSON type), or serde_json's error message where the text
/// is not JSON.
pub uninterp spec fn json_media_metadata(json: Seq<char>) -> Result<RawMediaMetadata, Seq<char>>;

/// `serde_json::from_str::<serde_json::Value>` on yt-dlp's metadata, with
/// the read fields picked out of the value (`Value::get`, `as_str`,
/// `as_array`, `as_u64`). The result is the named function of the text.
#[verifier::external_body]
fn parse_media_metadata(json: &str) -> (r: Result<RawMediaMetadata, String>)
    ensures
        r.is_ok() == json_media_metadata(json@).is_ok(),
        r.is_ok() ==> json_media_metadata(json@) == Ok::<RawMediaMetadata, Seq<char>>(r.unwrap()),
        r.is_err() ==> json_media_metadata(json@) == Err::<RawMediaMetadata, Seq<char>>(r.unwrap_err()@),
{
    let v: Value = serde_json::from_str(json).map_err(|e| e.to_string())?;
    let s = |v: &Value, k| v.get(k).and_then(Value::as_str).map(String::from);
    let entry = |e: &Value| RawPlaylistEntry { title: s(e, "title"), fulltitle: s(e, "fulltitle"), name: s(e, "name"), id: s(e, "id"), url: s(e, "url"), playlist_index: e.get("playlist_index").and_then(Value::as_u64) };
    let entries = v.get("entries").and_then(Value::as_array).map(|a| a.iter().map(entry).collect());
    Ok(RawMediaMetadata { id: s(&v, "id"), title: s(&v, "title"), thumbnail: s(&v, "thumbnail"), entries })
}

/// The error reported where yt-dlp failed to read a link.
pub open spec fn ytdlp_error_message(stderr: Seq<u8>) -> Seq<char> {
    "yt-dlp error: "@ + utf8_lossy_text(stderr)
}

/// What reading a link's metadata with yt-dlp gives, from whether yt-dlp
/// succeeded and what it printed: its error output as an error where it
/// failed; otherwise the description of its JSON document, or the JSON
/// parser's message where that is not JSON.
pub open spec fn media_output_result(
    succeeded: bool,
    stdout: Seq<u8>,
    stderr: Seq<u8>,
    r: Result<MediaInfo, String>,
) -> bool {
    if !succeeded {
        r matches Err(m) && m@ == ytdlp_error_message(stderr)
    } else {
        match json_media_metadata(utf8_lossy_text(stdout)) {
            Ok(raw) => r matches Ok(info) && describes_media(info, raw),
            Err(e) => r matches Err(m) && m@ == e,
        }
    }
}

/// The media description from yt-dlp's `--dump-single-json` run (see
/// `media_output_result`).
pub fn media_info_from_output(succeeded: bool, stdout: &[u8], stderr: &[u8]) -> (r: Result<
    MediaInfo,
    String,
>)
    ensures
        media_output_result(succeeded, stdout@, stderr@, r),
{
    if !succeeded {
        let err = utf8_lossy(stderr);
        let a = chars_of("yt-dlp error: ");
        let b = chars_of(err.as_str());
        let ab = concat_chars(a.as_slice(), b.as_slice());
        return Err(string_from_chars(ab.as_slice()));
    }
    let text = utf8_lossy(stdout);
    match parse_media_metadata(text.as_str()) {
        Ok(raw) => Ok(media_info_from_metadata(&raw)),
        Err(e) => Err(e),
    }
}

/// What `regex::Regex::new(pattern)`, `captures(haystack)` and then the
/// named group `group` give: the group's text, `None` where the pattern does
/// not compile, does not match or the group took no part.
pub uninterp spec fn regex_capture_result(
    pattern: Seq<char>,
    haystack: Seq<char>,
    group: Seq<char>,
) -> Option<Seq<char>>;

/// `regex::Regex::new`, `Regex::captures` and `Captures::name`: the text of a
/// named group of the first match. The result is the named function of the
/// three arguments.
#[verifier::external_body]
fn regex_named_capture(pattern: &str, haystack: &str, group: &str) -> (r: Option<String>)
    ensures
        r.is_some() == regex_capture_result(pattern@, haystack@, group@).is_some(),
        r.is_some() ==> regex_capture_result(pattern@, haystack@, group@) == Some(r.unwrap()@),
{
    match regex::Regex::new(pattern) {
        Ok(re) => match re.captures(haystack) {
            Some(caps) => caps.name(group).map(|m| m.as_str().to_string()),
            None => None,
        },
        Err(_) => None,
    }
}

/// The line in which yt-dlp names the merged output file.
pub open spec fn merge_line_pattern() -> Seq<char> {
    "\\[Merger\\] Merging formats into \"(?P<path>[^\"]+)\""@
}

/// The line in which yt-dlp names the file it downloads to.
pub open spec fn destination_line_pattern() -> Seq<char> {
    "\\[download\\] Destination:\\s+(?P<path>.+)"@
}

/// The line in which yt-dlp reports a file as downloaded before.
pub open spec fn already_line_pattern() -> Seq<char> {
    "\\[download\\]\\s+(?P<path>.*) has already been downloaded"@
}

/// The output file known after reading `line`: the path that a merge,
/// destination or already-downloaded line names (checked in that order), or
/// the one known before.
pub open spec fn line_destination(line: Seq<char>, prev: Option<Seq<char>>) -> Option<Seq<char>> {
    let merged = regex_capture_result(merge_line_pattern(), line, "path"@);
    let dest = regex_capture_result(destination_line_pattern(), line, "path"@);
    let already = regex_capture_result(already_line_pattern(), line, "path"@);
    if merged.is_some() {
        merged
    } else if dest.is_some() {
        dest
    } else if already.is_some() {
        already
    } else {
        prev
    }
}

/// Tracks the output file while reading yt-dlp's output line by line.
pub fn destination_from_line(line: &str, prev: Option<String>) -> (r: Option<String>)
    ensures
        opt_view(r) == line_destination(line@, opt_view(prev)),
{
    let merged = regex_named_capture(
        "\\[Merger\\] Merging formats into \"(?P<path>[^\"]+)\"",
        line,
        "path",
    );
    if merged.is_some() {
        return merged;
    }
    let dest = regex_named_capture("\\[download\\] Destination:\\s+(?P<path>.+)", line, "path");
    if dest.is_some() {
        return dest;
    }
    let already = regex_named_capture(
        "\\[download\\]\\s+(?P<path>.*) has already been downloaded",
        line,
        "path",
    );
    if already.is_some() {
        return already;
    }
    prev
}

/// The part of a progress line that gives the time left.
pub open spec fn eta_line_pattern() -> Seq<char> {
    "ETA\\s+(?P<eta>[0-9:]+)"@
}

/// The time-left text of a yt-dlp progress line (such as `01:23`), where
/// the line has one.
pub fn eta_text_in_line(line: &str) -> (r: Option<String>)
    ensures
        opt_view(r) == regex_capture_result(eta_line_pattern(), line@, "eta"@),
{
    regex_named_capture("ETA\\s+(?P<eta>[0-9:]+)", line, "eta")
}

/// The part of a progress line that gives the percentage done.
pub open spec fn percent_line_pattern() -> Seq<char> {
    "\\[download\\]\\s+(?P<pct>[0-9\\.]+)%"@
}

/// The part of a progress line that counts fragments.
pub open spec fn fragment_line_pattern() -> Seq<char> {
    "Frag\\s+(?P<cur>\\d+)/(?P<tot>\\d+)"@
}

/// The part of a progress line that gives the total size.
pub open spec fn size_line_pattern() -> Seq<char> {
    "of\\s+[~]?(?P<size>[0-9\\.]+)(?P<unit>[a-zA-Z]+)"@
}

/// The part of a progress line that gives the speed.
pub open spec fn speed_line_pattern() -> Seq<char> {
    "at\\s+(?P<speed>[0-9\\.]+)(?P<unit>[a-zA-Z/]+)"@
}

/// Two named groups of the first match of `pattern`, where both took part.
pub open spec fn capture_pair(pattern: Seq<char>, line: Seq<char>, first: Seq<char>, second: Seq<char>) -> Option<(Seq<char>, Seq<char>)> {
    let a = regex_capture_result(pattern, line, first);
    let b = regex_capture_result(pattern, line, second);
    if a.is_some() && b.is_some() {
        Some((a.unwrap(), b.unwrap()))
    } else {
        None
    }
}

/// The views of an optional pair of strings.
pub open spec fn opt_string_pair(o: Option<(String, String)>) -> Option<(Seq<char>, Seq<char>)> {
    match o {
        Some(p) => Some((p.0@, p.1@)),
        None => None,
    }
}

/// The figures a yt-dlp progress line holds, as text: the percentage, else
/// the fragment count (current, total); the size and the speed with their
/// units; the time left.
pub struct ProgressCaptures {
    pub percent: Option<String>,
    pub fragment: Option<(String, String)>,
    pub size: Option<(String, String)>,
    pub speed: Option<(String, String)>,
    pub eta: Option<String>,
}

fn capture_pair_exec(pattern: &str, line: &str, first: &str, second: &str) -> (r: Option<(String, String)>)
    ensures
        opt_string_pair(r) == capture_pair(pattern@, line@, first@, second@),
{
    let a = regex_named_capture(pattern, line, first);
    let b = regex_named_capture(pattern, line, second);
    match (a, b) {
        (Some(x), Some(y)) => Some((x, y)),
        _ => None,
    }
}

/// Reads the figures of a yt-dlp progress line (see `ProgressCaptures`);
/// the fragment count is read only where the line gives no percentage.
pub fn progress_captures(line: &str) -> (r: ProgressCaptures)
    ensures
        opt_view(r.percent) == regex_capture_result(percent_line_pattern(), line@, "pct"@),
        opt_string_pair(r.fragment) == (if r.percent.is_some() {
            None
        } else {
            capture_pair(fragment_line_pattern(), line@, "cur"@, "tot"@)
        }),
        opt_string_pair(r.size) == capture_pair(size_line_pattern(), line@, "size"@, "unit"@),
        opt_string_pair(r.speed) == capture_pair(speed_line_pattern(), line@, "speed"@, "unit"@),
        opt_view(r.eta) == regex_capture_result(eta_line_pattern(), line@, "eta"@),
{
    let percent = regex_named_capture("\\[download\\]\\s+(?P<pct>[0-9\\.]+)%", line, "pct");
    let fragment = if percent.is_some() {
        None
    } else {
        capture_pair_exec("Frag\\s+(?P<cur>\\d+)/(?P<tot>\\d+)", line, "cur", "tot")
    };
    let size = capture_pair_exec("of\\s+[~]?(?P<size>[0-9\\.]+)(?P<unit>[a-zA-Z]+)", line, "size", "unit");
    let speed = capture_pair_exec("at\\s+(?P<speed>[0-9\\.]+)(?P<unit>[a-zA-Z/]+)", line, "speed", "unit");
    let eta = eta_text_in_line(line);
    ProgressCaptures { percent, fragment, size, speed, eta }
}

/// The size reported when yt-dlp finishes: the final file's size where it
/// is known and non-zero, otherwise the last total seen in its progress.
pub fn settle_total_bytes(current_total: u64, final_file_size: Option<u64>) -> (r: u64)
    ensures
        r == match final_file_size {
            Some(n) => if n > 0 {
                n
            } else {
                current_total
            },
            None => current_total,
        },
{
    match final_file_size {
        Some(n) => if n > 0 {
            n
        } else {
            current_total
        },
        None => current_total,
    }
}

} // verus!
