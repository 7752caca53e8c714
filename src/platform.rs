//! Monitor identity strings and the UTF-16 buffers of the Win32 API.

use vstd::prelude::*;
use vstd::slice::slice_subrange;
use vstd::string::*;

verus! {

/// The characters `s` decodes to, with unpaired surrogates replaced.
pub uninterp spec fn utf16_lossy(units: Seq<u16>) -> Seq<char>;

/// Relies on `String::from_utf16_lossy`: the result depends on the units
/// alone, and units below the surrogate range each decode to the character
/// of that value.
#[verifier::external_body]
fn decode_utf16_lossy(units: &[u16]) -> (r: String)
    ensures
        r@ == utf16_lossy(units@),
        units@.len() == 0 ==> r@.len() == 0,
        (forall|i: int| 0 <= i < units@.len() ==> #[trigger] units@[i] < 0xD800) ==> r@
            == units@.map_values(|u: u16| u as char),
{
    String::from_utf16_lossy(units)
}

/// The UTF-16 code units of one character: itself below `0x10000`,
/// otherwise a high and a low surrogate.
pub open spec fn char_utf16(c: char) -> Seq<u16> {
    let v = c as u32;
    if v < 0x10000 {
        seq![v as u16]
    } else {
        let w = (v - 0x10000) as u32;
        seq![(0xD800 + w / 0x400) as u16, (0xDC00 + w % 0x400) as u16]
    }
}

/// The UTF-16 code units of `s`.
pub open spec fn utf16_units(s: Seq<char>) -> Seq<u16>
    decreases s.len(),
{
    if s.len() == 0 {
        seq![]
    } else {
        utf16_units(s.drop_last()) + char_utf16(s.last())
    }
}

/// Where the text of a NUL-terminated UTF-16 buffer ends: at the first NUL,
/// or at the end of the buffer.
pub open spec fn text_end(wide: Seq<u16>) -> int
    decreases wide.len(),
{
    if wide.len() == 0 {
        0
    } else if text_end(wide.drop_last()) < wide.len() - 1 {
        text_end(wide.drop_last())
    } else if wide.last() == 0 {
        wide.len() - 1
    } else {
        wide.len() as int
    }
}

proof fn lemma_text_end(wide: Seq<u16>)
    ensures
        0 <= text_end(wide) <= wide.len(),
        forall|i: int| 0 <= i < text_end(wide) ==> wide[i] != 0,
        text_end(wide) < wide.len() ==> wide[text_end(wide)] == 0,
    decreases wide.len(),
{
    if wide.len() > 0 {
        lemma_text_end(wide.drop_last());
        assert forall|i: int| 0 <= i < text_end(wide) implies wide[i] != 0 by {
            if i < wide.len() - 1 {
                assert(wide.drop_last()[i] == wide[i]);
            }
        }
    }
}

/// The text of a fixed-size wide-character buffer, up to its first NUL.
pub fn wide_c_array_to_string(wide: &[u16]) -> (r: String)
    ensures
        r@ == utf16_lossy(wide@.take(text_end(wide@))),
{
    let mut nul: usize = 0;
    while nul < wide.len() && wide[nul] != 0
        invariant
            nul <= wide@.len(),
            forall|i: int| 0 <= i < nul ==> wide@[i] != 0,
        decreases wide@.len() - nul,
    {
        nul = nul + 1;
    }
    proof {
        lemma_text_end(wide@);
        if text_end(wide@) < nul {
            assert(wide@[text_end(wide@)] != 0);
        }
        if nul < text_end(wide@) {
            assert(wide@[nul as int] != 0);
        }
    }
    decode_utf16_lossy(slice_subrange(wide, 0, nul))
}

/// The low byte of a unit, as the character of that value.
pub open spec fn latin1_char(u: u16) -> char {
    ((u as u8) as u16) as char
}

/// A monitor's friendly name as WMI reports it: one character per unit, from
/// the unit's low byte, up to the first NUL.
pub open spec fn wmi_name(units: Seq<u16>) -> Seq<char> {
    units.take(text_end(units)).map_values(|u: u16| latin1_char(u))
}

/// The friendly name in a WMI `UserFriendlyName` buffer, if it is not empty.
pub fn wmi_monitor_name(units: &[u16]) -> (r: Option<String>)
    ensures
        r is None <==> text_end(units@) == 0,
        match r {
            Some(name) => name@ == wmi_name(units@),
            None => true,
        },
{
    let mut low: Vec<u16> = Vec::new();
    let mut nul: usize = 0;
    while nul < units.len() && units[nul] != 0
        invariant
            nul <= units@.len(),
            forall|i: int| 0 <= i < nul ==> units@[i] != 0,
            low@.len() == nul,
            forall|i: int| 0 <= i < nul ==> #[trigger] low@[i] == ((units@[i] as u8) as u16),
        decreases units@.len() - nul,
    {
        low.push((units[nul] as u8) as u16);
        nul = nul + 1;
    }
    proof {
        lemma_text_end(units@);
        if text_end(units@) < nul {
            assert(units@[text_end(units@)] != 0);
        }
        if nul < text_end(units@) {
            assert(units@[nul as int] != 0);
        }
    }
    if nul == 0 {
        return None;
    }
    let name = decode_utf16_lossy(low.as_slice());
    proof {
        assert forall|i: int| 0 <= i < low@.len() implies #[trigger] low@[i] < 0xD800 by {
            assert(low@[i] == ((units@[i] as u8) as u16));
        }
        assert(name@ =~= wmi_name(units@));
    }
    Some(name)
}

/// The non-empty friendly names among WMI's monitor records, in order.
pub open spec fn wmi_names(records: Seq<Option<Seq<u16>>>) -> Seq<Seq<char>>
    decreases records.len(),
{
    if records.len() == 0 {
        seq![]
    } else {
        match records.last() {
            Some(units) => if text_end(units) > 0 {
                wmi_names(records.drop_last()).push(wmi_name(units))
            } else {
                wmi_names(records.drop_last())
            },
            None => wmi_names(records.drop_last()),
        }
    }
}

pub open spec fn record_views(records: Seq<Option<Vec<u16>>>) -> Seq<Option<Seq<u16>>> {
    records.map_values(
        |r: Option<Vec<u16>>|
            match r {
                Some(v) => Some(v@),
                None => None,
            },
    )
}

/// The friendly names of the monitors WMI lists, skipping records without one.
pub fn get_wmi_monitor_names(records: &Vec<Option<Vec<u16>>>) -> (r: Vec<String>)
    ensures
        r@.map_values(|s: String| s@) == wmi_names(record_views(records@)),
{
    let mut names: Vec<String> = Vec::new();
    let mut i: usize = 0;
    while i < records.len()
        invariant
            i <= records@.len(),
            names@.map_values(|s: String| s@) == wmi_names(record_views(records@.take(i as int))),
        decreases records@.len() - i,
    {
        proof {
            assert(record_views(records@.take(i + 1)).drop_last() =~= record_views(
                records@.take(i as int),
            ));
            assert(record_views(records@.take(i + 1)).last() == record_views(records@)[i as int]);
        }
        let ghost before = names@;
        let ghost views = record_views(records@.take(i + 1));
        proof {
            assert(views.len() > 0);
            assert(wmi_names(views) == match views.last() {
                Some(u) => if text_end(u) > 0 {
                    wmi_names(views.drop_last()).push(wmi_name(u))
                } else {
                    wmi_names(views.drop_last())
                },
                None => wmi_names(views.drop_last()),
            });
        }
        match &records[i] {
            Some(units) => {
                proof {
                    assert(views.last() == Some(units@));
                    lemma_text_end(units@);
                }
                match wmi_monitor_name(units.as_slice()) {
                    Some(name) => {
                        names.push(name);
                        proof {
                            assert(names@.map_values(|s: String| s@) =~= before.map_values(
                                |s: String| s@,
                            ).push(names@.last()@));
                            assert(names@.map_values(|s: String| s@) == wmi_names(views));
                        }
                    },
                    None => {
                        proof {
                            assert(names@ == before);
                            assert(names@.map_values(|s: String| s@) == wmi_names(views));
                        }
                    },
                }
            },
            None => {
                proof {
                    assert(views.last() == None::<Seq<u16>>);
                    assert(names@.map_values(|s: String| s@) == wmi_names(views));
                }
            },
        }
        i = i + 1;
    }
    proof {
        assert(records@.take(records@.len() as int) =~= records@);
    }
    names
}

/// `s` as a NUL-terminated UTF-16 string.
pub fn to_wide_string(s: &str) -> (r: Vec<u16>)
    ensures
        r@ == utf16_units(s@).push(0),
{
    let n = s.unicode_len();
    let mut units: Vec<u16> = Vec::new();
    let mut i: usize = 0;
    while i < n
        invariant
            i <= n,
            n == s@.len(),
            units@ == utf16_units(s@.take(i as int)),
        decreases n - i,
    {
        let c = s.get_char(i);
        let v = c as u32;
        proof {
            assert(s@.take(i + 1).drop_last() =~= s@.take(i as int));
            assert(s@.take(i + 1).last() == c);
        }
        let ghost before = units@;
        if v < 0x10000 {
            units.push(v as u16);
        } else {
            let w = v - 0x10000;
            units.push((0xD800 + w / 0x400) as u16);
            units.push((0xDC00 + w % 0x400) as u16);
        }
        proof {
            assert(units@ =~= before + char_utf16(c));
        }
        i = i + 1;
    }
    proof {
        assert(s@.take(n as int) =~= s@);
    }
    units.push(0);
    units
}

/// The characters of `MONITOR\`, which starts a monitor's device id.
pub open spec fn monitor_prefix() -> Seq<char> {
    seq!['M', 'O', 'N', 'I', 'T', 'O', 'R', '\\']
}

/// The index of the first backslash at or after `start`, or the length.
pub open spec fn segment_end(s: Seq<char>, start: int) -> int
    decreases s.len() - start,
{
    if start >= s.len() {
        s.len() as int
    } else if s[start] == '\\' {
        start
    } else {
        segment_end(s, start + 1)
    }
}

/// The display name of a three-letter PnP manufacturer code.
pub open spec fn manufacturer_name(code: Seq<char>) -> Seq<char> {
    if code == seq!['D', 'E', 'L'] {
        seq!['D', 'e', 'l', 'l']
    } else if code == seq!['S', 'A', 'M'] {
        seq!['S', 'a', 'm', 's', 'u', 'n', 'g']
    } else if code == seq!['H', 'W', 'P'] {
        seq!['H', 'P']
    } else if code == seq!['A', 'C', 'I'] {
        seq!['A', 'S', 'U', 'S']
    } else if code == seq!['B', 'N', 'Q'] {
        seq!['B', 'e', 'n', 'Q']
    } else if code == seq!['A', 'C', 'R'] {
        seq!['A', 'c', 'e', 'r']
    } else if code == seq!['L', 'E', 'N'] {
        seq!['L', 'e', 'n', 'o', 'v', 'o']
    } else if code == seq!['A', 'O', 'C'] {
        seq!['A', 'O', 'C']
    } else if code == seq!['G', 'S', 'M'] {
        seq!['L', 'G']
    } else if code == seq!['P', 'H', 'L'] {
        seq!['P', 'h', 'i', 'l', 'i', 'p', 's']
    } else {
        code
    }
}

/// The manufacturer and model of a device id `MONITOR\<code><model>\...`:
/// the second backslash-separated field, when the first is `MONITOR` and the
/// second has at least three characters, split after its third.
pub open spec fn device_info(s: Seq<char>) -> Option<(Seq<char>, Seq<char>)> {
    if s.len() >= 8 && s.take(8) == monitor_prefix() {
        let info = s.subrange(8, segment_end(s, 8));
        if info.len() >= 3 {
            Some((manufacturer_name(info.take(3)), info.skip(3)))
        } else {
            None
        }
    } else {
        None
    }
}

proof fn lemma_segment_end(s: Seq<char>, start: int)
    requires
        0 <= start <= s.len(),
    ensures
        start <= segment_end(s, start) <= s.len(),
        forall|i: int| start <= i < segment_end(s, start) ==> s[i] != '\\',
        segment_end(s, start) < s.len() ==> s[segment_end(s, start)] == '\\',
    decreases s.len() - start,
{
    if start < s.len() && s[start] != '\\' {
        lemma_segment_end(s, start + 1);
    }
}

fn code_is(s: &str, at: usize, a: char, b: char, c: char) -> (r: bool)
    requires
        at + 3 <= s@.len() <= usize::MAX,
    ensures
        r == (s@.subrange(at as int, at + 3) == seq![a, b, c]),
{
    let r = s.get_char(at) == a && s.get_char(at + 1) == b && s.get_char(at + 2) == c;
    proof {
        if r {
            assert(s@.subrange(at as int, at + 3) =~= seq![a, b, c]);
        } else {
            let sub = s@.subrange(at as int, at + 3);
            assert(sub[0] != a || sub[1] != b || sub[2] != c);
        }
    }
    r
}

fn manufacturer_of(s: &str, at: usize) -> (r: String)
    requires
        at + 3 <= s@.len() <= usize::MAX,
    ensures
        r@ == manufacturer_name(s@.subrange(at as int, at + 3)),
{
    proof {
        reveal_strlit("Dell");
        reveal_strlit("Samsung");
        reveal_strlit("HP");
        reveal_strlit("ASUS");
        reveal_strlit("BenQ");
        reveal_strlit("Acer");
        reveal_strlit("Lenovo");
        reveal_strlit("AOC");
        reveal_strlit("LG");
        reveal_strlit("Philips");
    }
    if code_is(s, at, 'D', 'E', 'L') {
        "Dell".to_owned()
    } else if code_is(s, at, 'S', 'A', 'M') {
        "Samsung".to_owned()
    } else if code_is(s, at, 'H', 'W', 'P') {
        "HP".to_owned()
    } else if code_is(s, at, 'A', 'C', 'I') {
        "ASUS".to_owned()
    } else if code_is(s, at, 'B', 'N', 'Q') {
        "BenQ".to_owned()
    } else if code_is(s, at, 'A', 'C', 'R') {
        "Acer".to_owned()
    } else if code_is(s, at, 'L', 'E', 'N') {
        "Lenovo".to_owned()
    } else if code_is(s, at, 'A', 'O', 'C') {
        "AOC".to_owned()
    } else if code_is(s, at, 'G', 'S', 'M') {
        "LG".to_owned()
    } else if code_is(s, at, 'P', 'H', 'L') {
        "Philips".to_owned()
    } else {
        s.substring_char(at, at + 3).to_owned()
    }
}

/// Splits a monitor device id such as `MONITOR\DEL4321\{...}` into the
/// manufacturer's name and the model code.
pub fn parse_monitor_info_from_device_id(device_id: &str) -> (r: Option<(String, String)>)
    ensures
        match device_info(device_id@) {
            Some((maker, model)) => match r {
                Some((a, b)) => a@ == maker && b@ == model,
                None => false,
            },
            None => r is None,
        },
{
    let n = device_id.unicode_len();
    if n < 8 {
        return None;
    }
    let starts = device_id.get_char(0) == 'M' && device_id.get_char(1) == 'O'
        && device_id.get_char(2) == 'N' && device_id.get_char(3) == 'I'
        && device_id.get_char(4) == 'T' && device_id.get_char(5) == 'O'
        && device_id.get_char(6) == 'R' && device_id.get_char(7) == '\\';
    proof {
        if starts {
            assert(device_id@.take(8) =~= monitor_prefix());
        } else {
            let t = device_id@.take(8);
            assert(t[0] != 'M' || t[1] != 'O' || t[2] != 'N' || t[3] != 'I' || t[4] != 'T' || t[5]
                != 'O' || t[6] != 'R' || t[7] != '\\');
        }
    }
    if !starts {
        return None;
    }
    let mut end: usize = 8;
    while end < n && device_id.get_char(end) != '\\'
        invariant
            8 <= end <= n,
            n == device_id@.len(),
            forall|i: int| 8 <= i < end ==> device_id@[i] != '\\',
        decreases n - end,
    {
        end = end + 1;
    }
    proof {
        lemma_segment_end(device_id@, 8);
        let e = segment_end(device_id@, 8);
        if e < end {
            assert(device_id@[e] == '\\');
        }
        if end < e {
            assert(device_id@[end as int] != '\\');
        }
    }
    if end - 8 < 3 {
        return None;
    }
    let maker = manufacturer_of(device_id, 8);
    let model = device_id.substring_char(11, end).to_owned();
    proof {
        let info = device_id@.subrange(8, end as int);
        assert(info.take(3) =~= device_id@.subrange(8, 11));
        assert(info.skip(3) =~= device_id@.subrange(11, end as int));
    }
    Some((maker, model))
}

} // verus!
