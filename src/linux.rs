//! What the Linux backends read and write: the output of `ddcutil` and the
//! raw values of a sysfs backlight. The processes and files themselves are
//! handled by the caller.

use vstd::prelude::*;
use vstd::slice::{slice_subrange, slice_to_vec};

verus! {

/// ASCII whitespace: space, tab, line feed, vertical tab, form feed, return.
pub open spec fn is_space(b: u8) -> bool {
    b == 0x20 || (0x09 <= b && b <= 0x0d)
}

pub open spec fn is_digit(b: u8) -> bool {
    0x30 <= b && b <= 0x39
}

pub open spec fn all_digits(d: Seq<u8>) -> bool {
    forall|i: int| 0 <= i < d.len() ==> is_digit(#[trigger] d[i])
}

/// The value of a string of decimal digits.
pub open spec fn digits_value(d: Seq<u8>) -> nat
    decreases d.len(),
{
    if d.len() == 0 {
        0
    } else {
        digits_value(d.drop_last()) * 10 + (d.last() - 0x30) as nat
    }
}

/// A decimal `u32` as `str::parse` reads it: an optional `+`, then one or
/// more digits whose value fits.
pub open spec fn decimal(t: Seq<u8>) -> Option<u32> {
    let d = if t.len() > 0 && t[0] == 0x2b {
        t.skip(1)
    } else {
        t
    };
    if d.len() > 0 && all_digits(d) && digits_value(d) <= u32::MAX {
        Some(digits_value(d) as u32)
    } else {
        None
    }
}

proof fn lemma_digits_prefix(d: Seq<u8>, k: int)
    requires
        all_digits(d),
        0 <= k <= d.len(),
    ensures
        digits_value(d.take(k)) <= digits_value(d),
    decreases d.len(),
{
    if k < d.len() {
        assert(all_digits(d.drop_last()));
        assert(d.drop_last().take(k) =~= d.take(k));
        lemma_digits_prefix(d.drop_last(), k);
    } else {
        assert(d.take(k) =~= d);
    }
}

/// Reads a decimal `u32` token.
pub fn parse_decimal(token: &[u8]) -> (r: Option<u32>)
    ensures
        r == decimal(token@),
{
    let n = token.len();
    let start: usize = if n > 0 && token[0] == 0x2b {
        1
    } else {
        0
    };
    let ghost d = token@.subrange(start as int, n as int);
    proof {
        if start == 1 {
            assert(d =~= token@.skip(1));
        } else {
            assert(d =~= token@);
        }
    }
    if start == n {
        return None;
    }
    let mut i: usize = start;
    let mut acc: u64 = 0;
    while i < n
        invariant
            start <= i <= n,
            n == token@.len(),
            d == token@.subrange(start as int, n as int),
            d == (if token@.len() > 0 && token@[0] == 0x2b {
                token@.skip(1)
            } else {
                token@
            }),
            d.len() > 0,
            all_digits(token@.subrange(start as int, i as int)),
            acc == digits_value(token@.subrange(start as int, i as int)),
            acc <= u32::MAX,
        decreases n - i,
    {
        let b = token[i];
        proof {
            assert(token@.subrange(start as int, i + 1).drop_last() =~= token@.subrange(
                start as int,
                i as int,
            ));
        }
        if b < 0x30 || b > 0x39 {
            proof {
                assert(!is_digit(d[i - start]));
                assert(!all_digits(d));
            }
            return None;
        }
        acc = acc * 10 + (b - 0x30) as u64;
        if acc > 0xffff_ffff {
            proof {
                let p = token@.subrange(start as int, i + 1);
                assert(all_digits(p));
                if all_digits(d) {
                    assert(d.take(i + 1 - start) =~= p);
                    lemma_digits_prefix(d, i + 1 - start);
                    assert(digits_value(d) > u32::MAX);
                }
            }
            return None;
        }
        i = i + 1;
    }
    proof {
        assert(token@.subrange(start as int, n as int) =~= d);
    }
    Some(acc as u32)
}

/// Splits text at whitespace: the finished tokens and the one in progress.
pub open spec fn scan_tokens(s: Seq<u8>) -> (Seq<Seq<u8>>, Seq<u8>)
    decreases s.len(),
{
    if s.len() == 0 {
        (seq![], seq![])
    } else {
        let (done, cur) = scan_tokens(s.drop_last());
        if is_space(s.last()) {
            if cur.len() > 0 {
                (done.push(cur), seq![])
            } else {
                (done, seq![])
            }
        } else {
            (done, cur.push(s.last()))
        }
    }
}

/// The maximal runs of non-whitespace bytes, in order.
pub open spec fn tokens(s: Seq<u8>) -> Seq<Seq<u8>> {
    let (done, cur) = scan_tokens(s);
    if cur.len() > 0 {
        done.push(cur)
    } else {
        done
    }
}

pub open spec fn views_of(v: Seq<Vec<u8>>) -> Seq<Seq<u8>> {
    v.map_values(|t: Vec<u8>| t@)
}

/// The whitespace-separated tokens of `text`.
pub fn split_tokens(text: &[u8]) -> (r: Vec<Vec<u8>>)
    ensures
        views_of(r@) == tokens(text@),
{
    let mut done: Vec<Vec<u8>> = Vec::new();
    let mut cur: Vec<u8> = Vec::new();
    let mut i: usize = 0;
    while i < text.len()
        invariant
            i <= text@.len(),
            (views_of(done@), cur@) == scan_tokens(text@.take(i as int)),
        decreases text@.len() - i,
    {
        let b = text[i];
        proof {
            assert(text@.take(i + 1).drop_last() =~= text@.take(i as int));
        }
        if b == 0x20 || (0x09 <= b && b <= 0x0d) {
            if cur.len() > 0 {
                let ghost before = done@;
                done.push(cur);
                cur = Vec::new();
                proof {
                    assert(views_of(done@) =~= views_of(before).push(done@.last()@));
                }
            }
        } else {
            cur.push(b);
        }
        i = i + 1;
    }
    proof {
        assert(text@.take(text@.len() as int) =~= text@);
    }
    if cur.len() > 0 {
        let ghost before = done@;
        done.push(cur);
        proof {
            assert(views_of(done@) =~= views_of(before).push(done@.last()@));
        }
    }
    done
}

/// The `(current, max)` brightness in `ddcutil getvcp 10 --brief` output,
/// `VCP 10 C <current> <max>`: the fourth and fifth tokens.
pub open spec fn vcp_brief(s: Seq<u8>) -> Option<(u32, u32)> {
    let t = tokens(s);
    if t.len() >= 5 {
        match (decimal(t[3]), decimal(t[4])) {
            (Some(current), Some(max)) => Some((current, max)),
            _ => None,
        }
    } else {
        None
    }
}

/// Reads the brief form of `ddcutil getvcp` output.
pub fn parse_vcp_brief(output: &[u8]) -> (r: Option<(u32, u32)>)
    ensures
        r == vcp_brief(output@),
{
    let t = split_tokens(output);
    if t.len() < 5 {
        return None;
    }
    proof {
        assert(views_of(t@)[3] == t@[3]@);
        assert(views_of(t@)[4] == t@[4]@);
    }
    let current = parse_decimal(t[3].as_slice());
    let max = parse_decimal(t[4].as_slice());
    match (current, max) {
        (Some(current), Some(max)) => Some((current, max)),
        _ => None,
    }
}

/// The index of the first non-whitespace byte at or after `i`, or the length.
pub open spec fn lead(s: Seq<u8>, i: int) -> int
    decreases s.len() - i,
{
    if 0 <= i < s.len() && is_space(s[i]) {
        lead(s, i + 1)
    } else {
        i
    }
}

/// One past the last non-whitespace byte before `j`, or zero.
pub open spec fn trail(s: Seq<u8>, j: int) -> int
    decreases j,
{
    if 0 < j <= s.len() && is_space(s[j - 1]) {
        trail(s, j - 1)
    } else {
        j
    }
}

/// `s` without leading and trailing whitespace.
pub open spec fn trim(s: Seq<u8>) -> Seq<u8> {
    let a = lead(s, 0);
    let b = trail(s, s.len() as int);
    if a < b {
        s.subrange(a, b)
    } else {
        seq![]
    }
}

/// Where the trimmed part of `s[from..to]` starts and ends.
fn trim_bounds(s: &[u8], from: usize, to: usize) -> (r: (usize, usize))
    requires
        from <= to <= s@.len(),
    ensures
        from <= r.0 <= r.1 <= to,
        s@.subrange(r.0 as int, r.1 as int) == trim(s@.subrange(from as int, to as int)),
{
    let ghost line = s@.subrange(from as int, to as int);
    let mut a: usize = from;
    while a < to && (s[a] == 0x20 || (0x09 <= s[a] && s[a] <= 0x0d))
        invariant
            from <= a <= to,
            to <= s@.len(),
            line == s@.subrange(from as int, to as int),
            lead(line, a - from) == lead(line, 0),
        decreases to - a,
    {
        a = a + 1;
    }
    let mut b: usize = to;
    while b > from && (s[b - 1] == 0x20 || (0x09 <= s[b - 1] && s[b - 1] <= 0x0d))
        invariant
            from <= b <= to,
            to <= s@.len(),
            line == s@.subrange(from as int, to as int),
            trail(line, b - from) == trail(line, line.len() as int),
        decreases b,
    {
        b = b - 1;
    }
    if a < b {
        proof {
            assert(s@.subrange(a as int, b as int) =~= line.subrange(a - from, b - from));
        }
        (a, b)
    } else {
        (a, a)
    }
}

/// The bytes of `Display `.
pub open spec fn display_prefix() -> Seq<u8> {
    seq![0x44, 0x69, 0x73, 0x70, 0x6c, 0x61, 0x79, 0x20]
}

/// The bytes of `Model:`.
pub open spec fn model_prefix() -> Seq<u8> {
    seq![0x4d, 0x6f, 0x64, 0x65, 0x6c, 0x3a]
}

/// What the scan of `ddcutil detect` output has collected so far.
pub struct DetectState {
    pub found: Seq<(u32, Seq<u8>)>,
    pub display: Option<u32>,
    pub model: Option<Seq<u8>>,
}

pub open spec fn detect_start() -> DetectState {
    DetectState { found: seq![], display: None, model: None }
}

/// The displays found, with the one in progress once both its number and
/// its model are known.
pub open spec fn flushed(st: DetectState) -> Seq<(u32, Seq<u8>)> {
    match (st.display, st.model) {
        (Some(d), Some(m)) => st.found.push((d, m)),
        _ => st.found,
    }
}

/// A `Display <n>` line starts a new display; a `Model:` line names it.
pub open spec fn detect_line(st: DetectState, line: Seq<u8>) -> DetectState {
    let t = trim(line);
    if t.len() >= 8 && t.take(8) == display_prefix() {
        DetectState { found: flushed(st), display: decimal(t.skip(8)), model: None }
    } else if t.len() >= 6 && t.take(6) == model_prefix() {
        DetectState { found: st.found, display: st.display, model: Some(trim(t.skip(6))) }
    } else {
        st
    }
}

/// The index of the first line feed at or after `i`, or the length.
pub open spec fn line_end(s: Seq<u8>, i: int) -> int
    decreases s.len() - i,
{
    if i >= s.len() {
        s.len() as int
    } else if s[i] == 0x0a {
        i
    } else {
        line_end(s, i + 1)
    }
}

/// The scan state after the lines of `s` from position `i` on.
pub open spec fn detect_from(s: Seq<u8>, st: DetectState, i: int) -> DetectState
    decreases s.len() - i,
{
    if i < 0 || i > s.len() {
        st
    } else {
        let e = line_end(s, i);
        let next = detect_line(st, s.subrange(i, e));
        if e >= s.len() || e < i {
            next
        } else {
            detect_from(s, next, e + 1)
        }
    }
}

/// The `(display number, model)` pairs listed by `ddcutil detect`.
pub open spec fn detected_displays(s: Seq<u8>) -> Seq<(u32, Seq<u8>)> {
    flushed(detect_from(s, detect_start(), 0))
}

proof fn lemma_line_end(s: Seq<u8>, i: int)
    requires
        0 <= i <= s.len(),
    ensures
        i <= line_end(s, i) <= s.len(),
        forall|k: int| i <= k < line_end(s, i) ==> s[k] != 0x0a,
        line_end(s, i) < s.len() ==> s[line_end(s, i)] == 0x0a,
    decreases s.len() - i,
{
    if i < s.len() && s[i] != 0x0a {
        lemma_line_end(s, i + 1);
    }
}

pub open spec fn found_view(found: Seq<(u32, Vec<u8>)>) -> Seq<(u32, Seq<u8>)> {
    found.map_values(|p: (u32, Vec<u8>)| (p.0, p.1@))
}

pub open spec fn model_view(model: Option<Vec<u8>>) -> Option<Seq<u8>> {
    match model {
        Some(m) => Some(m@),
        None => None,
    }
}

fn is_display_line(s: &[u8], a: usize, b: usize) -> (r: bool)
    requires
        a <= b <= s@.len(),
    ensures
        r == (s@.subrange(a as int, b as int).len() >= 8 && s@.subrange(a as int, b as int).take(
            8,
        ) == display_prefix()),
{
    if b - a < 8 {
        return false;
    }
    let r = s[a] == 0x44 && s[a + 1] == 0x69 && s[a + 2] == 0x73 && s[a + 3] == 0x70 && s[a + 4]
        == 0x6c && s[a + 5] == 0x61 && s[a + 6] == 0x79 && s[a + 7] == 0x20;
    proof {
        let t = s@.subrange(a as int, b as int).take(8);
        if r {
            assert(t =~= display_prefix());
        } else {
            assert(t[0] != 0x44 || t[1] != 0x69 || t[2] != 0x73 || t[3] != 0x70 || t[4] != 0x6c
                || t[5] != 0x61 || t[6] != 0x79 || t[7] != 0x20);
            assert(t != display_prefix());
        }
    }
    r
}

fn is_model_line(s: &[u8], a: usize, b: usize) -> (r: bool)
    requires
        a <= b <= s@.len(),
    ensures
        r == (s@.subrange(a as int, b as int).len() >= 6 && s@.subrange(a as int, b as int).take(
            6,
        ) == model_prefix()),
{
    if b - a < 6 {
        return false;
    }
    let r = s[a] == 0x4d && s[a + 1] == 0x6f && s[a + 2] == 0x64 && s[a + 3] == 0x65 && s[a + 4]
        == 0x6c && s[a + 5] == 0x3a;
    proof {
        let t = s@.subrange(a as int, b as int).take(6);
        if r {
            assert(t =~= model_prefix());
        } else {
            assert(t[0] != 0x4d || t[1] != 0x6f || t[2] != 0x64 || t[3] != 0x65 || t[4] != 0x6c
                || t[5] != 0x3a);
            assert(t != model_prefix());
        }
    }
    r
}

fn flush(found: &mut Vec<(u32, Vec<u8>)>, display: Option<u32>, model: Option<Vec<u8>>)
    ensures
        found_view(final(found)@) == flushed(
            DetectState { found: found_view(old(found)@), display, model: model_view(model) },
        ),
{
    match (display, model) {
        (Some(d), Some(m)) => {
            let ghost before = found@;
            found.push((d, m));
            proof {
                assert(found_view(found@) =~= found_view(before).push((d, found@.last().1@)));
            }
        },
        _ => {},
    }
}

/// Lists the displays that `ddcutil detect` reported, as `(number, model)`.
pub fn parse_ddcutil_detect(output: &[u8]) -> (r: Vec<(u32, Vec<u8>)>)
    ensures
        found_view(r@) == detected_displays(output@),
{
    let n = output.len();
    let mut found: Vec<(u32, Vec<u8>)> = Vec::new();
    let mut display: Option<u32> = None;
    let mut model: Option<Vec<u8>> = None;
    let ghost total = detect_from(output@, detect_start(), 0);
    let mut i: usize = 0;
    let mut finished = false;
    proof {
        assert(found_view(found@) =~= Seq::<(u32, Seq<u8>)>::empty());
    }
    while !finished
        invariant
            i <= n,
            n == output@.len(),
            !finished ==> detect_from(
                output@,
                DetectState { found: found_view(found@), display, model: model_view(model) },
                i as int,
            ) == total,
            finished ==> (DetectState { found: found_view(found@), display, model: model_view(model) })
                == total,
        decreases (if finished {
            0
        } else {
            n - i + 1
        }),
    {
        let ghost st = DetectState { found: found_view(found@), display, model: model_view(model) };
        let mut e: usize = i;
        while e < n && output[e] != 0x0a
            invariant
                i <= e <= n,
                n == output@.len(),
                forall|k: int| i <= k < e ==> output@[k] != 0x0a,
            decreases n - e,
        {
            e = e + 1;
        }
        proof {
            lemma_line_end(output@, i as int);
            let le = line_end(output@, i as int);
            if le < e {
                assert(output@[le] == 0x0a);
            }
            if e < le {
                assert(output@[e as int] != 0x0a);
            }
        }
        let ghost line = output@.subrange(i as int, e as int);
        let (a, b) = trim_bounds(output, i, e);
        if is_display_line(output, a, b) {
            let old_display = display;
            let old_model = model;
            flush(&mut found, old_display, old_model);
            let rest = slice_subrange(output, a + 8, b);
            proof {
                assert(rest@ =~= trim(line).skip(8));
            }
            display = parse_decimal(rest);
            model = None;
        } else if is_model_line(output, a, b) {
            let (ma, mb) = trim_bounds(output, a + 6, b);
            proof {
                assert(output@.subrange(a + 6, b as int) =~= trim(line).skip(6));
            }
            model = Some(slice_to_vec(slice_subrange(output, ma, mb)));
        }
        proof {
            assert((DetectState { found: found_view(found@), display, model: model_view(model) })
                == detect_line(st, line));
        }
        if e >= n {
            finished = true;
        } else {
            i = e + 1;
        }
    }
    flush(&mut found, display, model);
    found
}

/// A raw backlight level as a percentage of `max_raw`, truncated to `u32`.
pub fn backlight_percent(raw: u32, max_raw: u32) -> (r: u32)
    ensures
        r == if max_raw > 0 {
            ((raw as int * 100) / (max_raw as int)) as u32
        } else {
            0
        },
{
    if max_raw > 0 {
        assert(raw as u64 * 100 <= 0xffff_ffffu64 * 100) by (nonlinear_arith)
            requires
                raw <= 0xffff_ffffu32,
        ;
        (raw as u64 * 100 / max_raw as u64) as u32
    } else {
        0
    }
}

/// A percentage as a raw backlight level of a device whose maximum is
/// `max_raw`, truncated to `u32`.
pub fn backlight_raw(percent: u32, max_raw: u32) -> (r: u32)
    ensures
        r == ((percent as int * max_raw as int) / 100) as u32,
{
    assert(percent as u64 * max_raw as u64 <= 0xffff_ffffu64 * 0xffff_ffffu64) by (nonlinear_arith)
        requires
            percent <= 0xffff_ffffu32,
            max_raw <= 0xffff_ffffu32,
    ;
    (percent as u64 * max_raw as u64 / 100) as u32
}

} // verus!
