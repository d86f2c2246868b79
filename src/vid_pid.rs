//! Vendor and product identifiers embedded in a device-interface path.
//!
//! A path such as `\\?\hid#vid_046d&pid_c52b&mi_00#...` carries the two
//! identifiers as hexadecimal tokens. The path is read as ASCII-lowercased
//! bytes, cut into fields at every `#` and `&`, and each field that starts
//! with `vid_` (or `pid_`) and continues with a hexadecimal `u16` gives the
//! identifier; where several fields do, the last one counts.

use vstd::prelude::*;
use vstd::utf8::encode_utf8;

verus! {

pub open spec fn is_field_separator(b: u8) -> bool {
    b == 0x23u8 || b == 0x26u8
}

pub open spec fn ascii_lower(b: u8) -> u8 {
    if 0x41u8 <= b && b <= 0x5Au8 {
        (b + 0x20u8) as u8
    } else {
        b
    }
}

pub open spec fn lower_bytes(s: Seq<u8>) -> Seq<u8> {
    s.map_values(|b: u8| ascii_lower(b))
}

/// The fields of `s` between separators, empty ones included, as a split
/// on the separators yields them (an empty input is one empty field).
pub open spec fn fields(s: Seq<u8>) -> Seq<Seq<u8>>
    decreases s.len(),
{
    if s.len() == 0 {
        seq![Seq::<u8>::empty()]
    } else {
        let front = fields(s.drop_last());
        if is_field_separator(s.last()) {
            front.push(Seq::<u8>::empty())
        } else {
            front.update(front.len() - 1, front.last().push(s.last()))
        }
    }
}

pub open spec fn hex_digit(b: u8) -> Option<nat> {
    if 0x30u8 <= b && b <= 0x39u8 {
        Some((b - 0x30u8) as nat)
    } else if 0x61u8 <= b && b <= 0x66u8 {
        Some((b - 0x61u8 + 10) as nat)
    } else if 0x41u8 <= b && b <= 0x46u8 {
        Some((b - 0x41u8 + 10) as nat)
    } else {
        None
    }
}

/// The value of a run of hexadecimal digits, most significant first.
pub open spec fn hex_value(s: Seq<u8>) -> Option<nat>
    decreases s.len(),
{
    if s.len() == 0 {
        Some(0)
    } else {
        match (hex_value(s.drop_last()), hex_digit(s.last())) {
            (Some(v), Some(d)) => Some(16 * v + d),
            _ => None,
        }
    }
}

/// A hexadecimal `u16` in the form that `u16::from_str_radix(_, 16)`
/// accepts: an optional `+`, then at least one digit, with a value that fits.
pub open spec fn parse_hex_u16(s: Seq<u8>) -> Option<u16> {
    let digits = if s.len() > 0 && s[0] == 0x2Bu8 {
        s.drop_first()
    } else {
        s
    };
    if digits.len() == 0 {
        None
    } else {
        match hex_value(digits) {
            Some(v) => if v <= 0xFFFF {
                Some(v as u16)
            } else {
                None
            },
            None => None,
        }
    }
}

/// `vid_`
pub open spec fn vid_tag() -> Seq<u8> {
    seq![0x76u8, 0x69u8, 0x64u8, 0x5Fu8]
}

/// `pid_`
pub open spec fn pid_tag() -> Seq<u8> {
    seq![0x70u8, 0x69u8, 0x64u8, 0x5Fu8]
}

/// The identifier that one field gives: the field starts with `tag` and
/// the rest is a hexadecimal `u16`.
pub open spec fn tagged_value(field: Seq<u8>, tag: Seq<u8>) -> Option<u16> {
    if tag.len() <= field.len() && field.subrange(0, tag.len() as int) == tag {
        parse_hex_u16(field.subrange(tag.len() as int, field.len() as int))
    } else {
        None
    }
}

/// The identifier that the last field giving one gives.
pub open spec fn last_tagged(fs: Seq<Seq<u8>>, tag: Seq<u8>) -> Option<u16>
    decreases fs.len(),
{
    if fs.len() == 0 {
        None
    } else {
        match tagged_value(fs.last(), tag) {
            Some(v) => Some(v),
            None => last_tagged(fs.drop_last(), tag),
        }
    }
}

/// Vendor and product identifiers of the path whose bytes are `path`.
pub open spec fn vid_pid_of(path: Seq<u8>) -> (Option<u16>, Option<u16>) {
    let fs = fields(lower_bytes(path));
    (last_tagged(fs, vid_tag()), last_tagged(fs, pid_tag()))
}

fn lower_ascii(b: &[u8]) -> (r: Vec<u8>)
    ensures
        r@ == lower_bytes(b@),
{
    let mut r: Vec<u8> = Vec::with_capacity(b.len());
    let mut i: usize = 0;
    while i < b.len()
        invariant
            i <= b@.len(),
            r@.len() == i,
            forall|j: int| 0 <= j < i ==> r@[j] == ascii_lower(b@[j]),
        decreases b@.len() - i,
    {
        let c = b[i];
        let l = if 0x41u8 <= c && c <= 0x5Au8 {
            c + 0x20u8
        } else {
            c
        };
        r.push(l);
        i = i + 1;
    }
    assert(r@ =~= lower_bytes(b@));
    r
}

fn hex_digit_of(b: u8) -> (r: Option<u32>)
    ensures
        match hex_digit(b) {
            Some(d) => r == Some(d as u32),
            None => r is None,
        },
{
    if 0x30u8 <= b && b <= 0x39u8 {
        Some((b - 0x30u8) as u32)
    } else if 0x61u8 <= b && b <= 0x66u8 {
        Some((b - 0x61u8 + 10) as u32)
    } else if 0x41u8 <= b && b <= 0x46u8 {
        Some((b - 0x41u8 + 10) as u32)
    } else {
        None
    }
}

/// The hexadecimal `u16` that the bytes `s[a..b]` spell, if any.
fn hex_u16_in(s: &Vec<u8>, a: usize, b: usize) -> (r: Option<u16>)
    requires
        a <= b <= s@.len(),
    ensures
        r == parse_hex_u16(s@.subrange(a as int, b as int)),
{
    let ghost whole = s@.subrange(a as int, b as int);
    let mut d: usize = a;
    if a < b && s[a] == 0x2Bu8 {
        d = a + 1;
        assert(whole.drop_first() =~= s@.subrange(d as int, b as int));
    } else {
        assert(whole =~= s@.subrange(d as int, b as int));
    }
    if d == b {
        return None;
    }
    let mut acc: u32 = 0;
    let mut big = false;
    let mut bad = false;
    let mut k: usize = d;
    assert(s@.subrange(d as int, d as int) =~= Seq::<u8>::empty());
    while k < b
        invariant
            a <= d <= k <= b <= s@.len(),
            acc <= 0xFFFF,
            bad ==> hex_value(s@.subrange(d as int, k as int)) is None,
            !bad ==> hex_value(s@.subrange(d as int, k as int)) is Some,
            !bad && big ==> hex_value(s@.subrange(d as int, k as int))->0 > 0xFFFF,
            !bad && !big ==> hex_value(s@.subrange(d as int, k as int)) == Some(acc as nat),
        decreases b - k,
    {
        let ghost prev = s@.subrange(d as int, k as int);
        let ghost next = s@.subrange(d as int, k + 1);
        assert(next.drop_last() =~= prev);
        match hex_digit_of(s[k]) {
            None => {
                bad = true;
            },
            Some(x) => {
                if !bad && !big {
                    let v: u32 = 16 * acc + x;
                    if v > 0xFFFF {
                        big = true;
                    } else {
                        acc = v;
                    }
                }
            },
        }
        k = k + 1;
    }
    if bad || big {
        None
    } else {
        Some(acc as u16)
    }
}

/// The identifier that the field `s[a..b]` gives for the tag whose first
/// letter is `first` (`v` for `vid_`, `p` for `pid_`).
fn field_value(s: &Vec<u8>, a: usize, b: usize, first: u8) -> (r: Option<u16>)
    requires
        a <= b <= s@.len(),
        first == 0x76u8 || first == 0x70u8,
    ensures
        r == tagged_value(
            s@.subrange(a as int, b as int),
            if first == 0x76u8 {
                vid_tag()
            } else {
                pid_tag()
            },
        ),
{
    let ghost field = s@.subrange(a as int, b as int);
    let ghost tag = if first == 0x76u8 {
        vid_tag()
    } else {
        pid_tag()
    };
    if b - a >= 4 && s[a] == first && s[a + 1] == 0x69u8 && s[a + 2] == 0x64u8 && s[a + 3]
        == 0x5Fu8 {
        assert(field.subrange(0, 4) =~= tag);
        assert(field.subrange(4, field.len() as int) =~= s@.subrange(a + 4, b as int));
        hex_u16_in(s, a + 4, b)
    } else {
        None
    }
}

/// Reads the vendor and product identifiers out of a device-interface path.
pub fn parse_vid_pid_from_path(path: &str) -> (r: (Option<u16>, Option<u16>))
    ensures
        r == vid_pid_of(encode_utf8(path@)),
{
    let lower = lower_ascii(path.as_bytes());
    let ghost l = lower@;
    let mut vid: Option<u16> = None;
    let mut pid: Option<u16> = None;
    let ghost mut done: Seq<Seq<u8>> = Seq::empty();
    let mut start: usize = 0;
    let mut i: usize = 0;
    assert(l.take(0) =~= Seq::<u8>::empty());
    assert(l.subrange(0, 0) =~= Seq::<u8>::empty());
    assert(fields(l.take(0)) =~= done.push(l.subrange(0, 0)));
    while i < lower.len()
        invariant
            l == lower@,
            start <= i <= l.len(),
            fields(l.take(i as int)) == done.push(l.subrange(start as int, i as int)),
            vid == last_tagged(done, vid_tag()),
            pid == last_tagged(done, pid_tag()),
        decreases l.len() - i,
    {
        let ghost cur = l.subrange(start as int, i as int);
        assert(l.take(i + 1).drop_last() =~= l.take(i as int));
        let c = lower[i];
        if c == 0x23u8 || c == 0x26u8 {
            let v = field_value(&lower, start, i, 0x76u8);
            let p = field_value(&lower, start, i, 0x70u8);
            proof {
                assert(done.push(cur).drop_last() =~= done);
                done = done.push(cur);
            }
            if v.is_some() {
                vid = v;
            }
            if p.is_some() {
                pid = p;
            }
            start = i + 1;
            assert(l.subrange(start as int, start as int) =~= Seq::<u8>::empty());
            assert(fields(l.take(i + 1)) =~= done.push(l.subrange(start as int, i + 1)));
        } else {
            assert(cur.push(c) =~= l.subrange(start as int, i + 1));
            assert(fields(l.take(i + 1)) =~= done.push(l.subrange(start as int, i + 1)));
        }
        i = i + 1;
    }
    let v = field_value(&lower, start, i, 0x76u8);
    let p = field_value(&lower, start, i, 0x70u8);
    proof {
        let last = l.subrange(start as int, i as int);
        assert(l.take(i as int) =~= l);
        assert(done.push(last).drop_last() =~= done);
    }
    if v.is_some() {
        vid = v;
    }
    if p.is_some() {
        pid = p;
    }
    (vid, pid)
}

} // verus!
