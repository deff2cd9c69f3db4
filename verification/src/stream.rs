//! The desktop-capture launch data: the monitor bounds, the decimal
//! renderings they need, and the exact argument list of the capture
//! process. Spawning the process is the caller's job; every byte of
//! the argument list is pinned down here.

use vstd::prelude::*;
use vstd::string::StrSliceExecFns;
use vstd::string::StringExecFns;

verus! {

/// The logical pixel boundaries of the monitor being shared.
#[derive(Clone, Copy, PartialEq, Eq, Structural, Debug)]
pub struct MonitorBounds {
    pub x: i32,
    pub y: i32,
    pub w: u32,
    pub h: u32,
}

impl MonitorBounds {
    /// Bounds from offset and size.
    pub fn new(x: i32, y: i32, w: u32, h: u32) -> (r: Self)
        ensures
            r == (MonitorBounds { x, y, w, h }),
    {
        Self { x, y, w, h }
    }
}

/// The decimal digit character of `d`.
pub open spec fn dchar(d: int) -> char {
    if d == 0 {
        '0'
    } else if d == 1 {
        '1'
    } else if d == 2 {
        '2'
    } else if d == 3 {
        '3'
    } else if d == 4 {
        '4'
    } else if d == 5 {
        '5'
    } else if d == 6 {
        '6'
    } else if d == 7 {
        '7'
    } else if d == 8 {
        '8'
    } else {
        '9'
    }
}

/// The decimal rendering of a nonnegative number, no leading zeros.
pub open spec fn dec_chars(n: int) -> Seq<char>
    decreases n,
{
    if n < 10 {
        seq![dchar(n)]
    } else {
        dec_chars(n / 10) + seq![dchar(n % 10)]
    }
}

/// The decimal rendering of a signed number: a minus sign, then the
/// magnitude.
pub open spec fn dec_chars_signed(v: int) -> Seq<char> {
    if v < 0 {
        seq!['-'] + dec_chars(-v)
    } else {
        dec_chars(v)
    }
}

/// The one-character string of a decimal digit.
fn digit_str(d: u32) -> (r: &'static str)
    requires
        d < 10,
    ensures
        r@ == seq![dchar(d as int)],
{
    proof {
        reveal_strlit("0");
        reveal_strlit("1");
        reveal_strlit("2");
        reveal_strlit("3");
        reveal_strlit("4");
        reveal_strlit("5");
        reveal_strlit("6");
        reveal_strlit("7");
        reveal_strlit("8");
        reveal_strlit("9");
    }
    let r = if d == 0 {
        "0"
    } else if d == 1 {
        "1"
    } else if d == 2 {
        "2"
    } else if d == 3 {
        "3"
    } else if d == 4 {
        "4"
    } else if d == 5 {
        "5"
    } else if d == 6 {
        "6"
    } else if d == 7 {
        "7"
    } else if d == 8 {
        "8"
    } else {
        "9"
    };
    proof {
        assert(r@ =~= seq![dchar(d as int)]);
    }
    r
}

/// Appends the decimal rendering of `n`.
pub fn push_dec_u32(out: &mut String, n: u32)
    ensures
        final(out)@ == old(out)@ + dec_chars(n as int),
    decreases n,
{
    if n >= 10 {
        push_dec_u32(out, n / 10);
    }
    out.append(digit_str(n % 10));
    proof {
        if n >= 10 {
            assert(old(out)@ + dec_chars((n / 10) as int) + seq![dchar((n % 10) as int)]
                =~= old(out)@ + dec_chars(n as int));
        } else {
            assert(old(out)@ + seq![dchar((n % 10) as int)] =~= old(out)@ + dec_chars(n as int));
        }
    }
}

/// The decimal rendering of an unsigned number as a string.
pub fn dec_u32_string(n: u32) -> (r: String)
    ensures
        r@ == dec_chars(n as int),
{
    let mut out = String::new();
    push_dec_u32(&mut out, n);
    proof {
        assert(Seq::<char>::empty() + dec_chars(n as int) =~= dec_chars(n as int));
    }
    out
}

/// The decimal rendering of a signed number as a string.
pub fn dec_i32_string(v: i32) -> (r: String)
    ensures
        r@ == dec_chars_signed(v as int),
{
    proof {
        reveal_strlit("-");
    }
    if v < 0 {
        let m: u32 = (-(v as i64)) as u32;
        let mut out = String::from_str("-");
        push_dec_u32(&mut out, m);
        proof {
            assert("-"@ =~= seq!['-']);
            assert(seq!['-'] + dec_chars(m as int) =~= dec_chars_signed(v as int));
        }
        out
    } else {
        dec_u32_string(v as u32)
    }
}

/// The exact argument list of the desktop-capture process: screen
/// grabbing at the monitor's offset and size, VP8 at 30 frames per
/// second scaled to at most 1280 wide at 2 Mbps with keyframes every
/// 10 frames and no alternate reference frames, sent as RTP to the
/// local port.
pub open spec fn capture_args_spec(b: MonitorBounds, port: u16) -> Seq<Seq<char>> {
    seq![
        "-re"@,
        "-f"@,
        "gdigrab"@,
        "-framerate"@,
        "30"@,
        "-offset_x"@,
        dec_chars_signed(b.x as int),
        "-offset_y"@,
        dec_chars_signed(b.y as int),
        "-video_size"@,
        dec_chars(b.w as int) + seq!['x'] + dec_chars(b.h as int),
        "-show_region"@,
        "1"@,
        "-i"@,
        "desktop"@,
        "-vf"@,
        "scale='min(1280,iw)':-2"@,
        "-vcodec"@,
        "libvpx"@,
        "-cpu-used"@,
        "5"@,
        "-deadline"@,
        "1"@,
        "-crf"@,
        "30"@,
        "-b:v"@,
        "2M"@,
        "-g"@,
        "10"@,
        "-auto-alt-ref"@,
        "0"@,
        "-f"@,
        "rtp"@,
        "rtp://127.0.0.1:"@ + dec_chars(port as int),
    ]
}

/// Builds the capture process's argument list for the given monitor
/// bounds and RTP port.
pub fn capture_args(b: &MonitorBounds, port: u16) -> (r: Vec<String>)
    ensures
        r.deep_view() == capture_args_spec(*b, port),
{
    proof {
        reveal_strlit("x");
        reveal_strlit("rtp://127.0.0.1:");
    }
    let mut out: Vec<String> = Vec::new();
    out.push(String::from_str("-re"));
    out.push(String::from_str("-f"));
    out.push(String::from_str("gdigrab"));
    out.push(String::from_str("-framerate"));
    out.push(String::from_str("30"));
    out.push(String::from_str("-offset_x"));
    out.push(dec_i32_string(b.x));
    out.push(String::from_str("-offset_y"));
    out.push(dec_i32_string(b.y));
    out.push(String::from_str("-video_size"));
    let mut size = dec_u32_string(b.w);
    size.append("x");
    push_dec_u32(&mut size, b.h);
    out.push(size);
    out.push(String::from_str("-show_region"));
    out.push(String::from_str("1"));
    out.push(String::from_str("-i"));
    out.push(String::from_str("desktop"));
    out.push(String::from_str("-vf"));
    out.push(String::from_str("scale='min(1280,iw)':-2"));
    out.push(String::from_str("-vcodec"));
    out.push(String::from_str("libvpx"));
    out.push(String::from_str("-cpu-used"));
    out.push(String::from_str("5"));
    out.push(String::from_str("-deadline"));
    out.push(String::from_str("1"));
    out.push(String::from_str("-crf"));
    out.push(String::from_str("30"));
    out.push(String::from_str("-b:v"));
    out.push(String::from_str("2M"));
    out.push(String::from_str("-g"));
    out.push(String::from_str("10"));
    out.push(String::from_str("-auto-alt-ref"));
    out.push(String::from_str("0"));
    out.push(String::from_str("-f"));
    out.push(String::from_str("rtp"));
    let mut addr = String::from_str("rtp://127.0.0.1:");
    push_dec_u32(&mut addr, port as u32);
    out.push(addr);
    proof {
        assert("x"@ =~= seq!['x']);
        assert(out.deep_view() =~= capture_args_spec(*b, port));
    }
    out
}

/// Whether `c` is a decimal digit.
pub open spec fn is_dec_digit(c: char) -> bool {
    48 <= c as u32 <= 57
}

/// Whether every character is a decimal digit.
pub open spec fn all_dec_digits(s: Seq<char>) -> bool {
    forall|i: int| 0 <= i < s.len() ==> is_dec_digit(#[trigger] s[i])
}

/// The value of a digit string, most significant first.
pub open spec fn digits_value(s: Seq<char>) -> int
    decreases s.len(),
{
    if s.len() == 0 {
        0
    } else {
        digits_value(s.drop_last()) * 10 + (s.last() as u32 - 48)
    }
}

/// A digit string's value is nonnegative.
pub proof fn lemma_digits_value_nonneg(s: Seq<char>)
    requires
        all_dec_digits(s),
    ensures
        digits_value(s) >= 0,
    decreases s.len(),
{
    if s.len() > 0 {
        assert(all_dec_digits(s.drop_last())) by {
            assert(forall|i: int| 0 <= i < s.len() - 1 ==> s.drop_last()[i] == s[i]);
        }
        lemma_digits_value_nonneg(s.drop_last());
    }
}

/// A digit string's value only grows as digits are appended.
pub proof fn lemma_digits_value_monotone(s: Seq<char>, i: int, j: int)
    requires
        all_dec_digits(s),
        0 <= i <= j <= s.len(),
    ensures
        digits_value(s.take(i)) <= digits_value(s.take(j)),
    decreases j - i,
{
    if i < j {
        lemma_digits_value_monotone(s, i, j - 1);
        let t = s.take(j);
        assert(all_dec_digits(t.drop_last())) by {
            assert(forall|k: int| 0 <= k < j - 1 ==> #[trigger] t.drop_last()[k] == s[k]);
        }
        assert(t.drop_last() =~= s.take(j - 1));
        lemma_digits_value_nonneg(t.drop_last());
        assert(digits_value(t) == digits_value(s.take(j - 1)) * 10 + (t.last() as u32 - 48));
    }
}

/// What a port string means: an optional leading plus sign, then at
/// least one decimal digit, with a value of at most 65535.
pub open spec fn port_spec(s: Seq<char>) -> Option<u16> {
    let t = if s.len() > 0 && s[0] == '+' {
        s.drop_first()
    } else {
        s
    };
    if t.len() > 0 && all_dec_digits(t) && digits_value(t) <= 65535 {
        Some(digits_value(t) as u16)
    } else {
        None
    }
}

/// Parses a port number, accepting exactly the strings `port_spec`
/// accepts.
pub fn validate_port(val: &str) -> (r: Result<u16, String>)
    ensures
        match r {
            Ok(v) => port_spec(val@) == Some(v),
            Err(_) => port_spec(val@) is None,
        },
{
    let ghost t: Seq<char> = if val@.len() > 0 && val@[0] == '+' {
        val@.drop_first()
    } else {
        val@
    };
    let n = val.unicode_len();
    let start: usize = if n > 0 && val.get_char(0) == '+' {
        1
    } else {
        0
    };
    proof {
        assert(t.len() == n - start);
        assert(forall|k: int| 0 <= k < t.len() ==> t[k] == val@[k + start]);
    }
    if n == start {
        return Err(String::from_str("port cannot be empty"));
    }
    let mut acc: u32 = 0;
    let mut i: usize = start;
    while i < n
        invariant
            start <= i <= n,
            n == val@.len(),
            start == 0 || start == 1,
            t == ({
                let s = val@;
                if s.len() > 0 && s[0] == '+' {
                    s.drop_first()
                } else {
                    s
                }
            }),
            t.len() == n - start,
            forall|k: int| 0 <= k < t.len() ==> t[k] == val@[k + start],
            all_dec_digits(t.take(i - start)),
            acc == digits_value(t.take(i - start)),
            acc <= 65535,
        decreases n - i,
    {
        let c = val.get_char(i);
        let d = c as u32;
        if d < 48 || d > 57 {
            proof {
                assert(t[i - start] == val@[i as int]);
                assert(!is_dec_digit(t[i - start]));
            }
            proof {
                assert(!is_dec_digit(t[i - start]));
                assert(!all_dec_digits(t));
                assert(port_spec(val@) is None);
            }
            return Err(String::from_str("port must be made of digits"));
        }
        let v = acc * 10 + (d - 48);
        proof {
            assert(t.take(i - start + 1).drop_last() =~= t.take(i - start));
            assert(t.take(i - start + 1).last() == val@[i as int]);
            assert(digits_value(t.take(i - start + 1)) == v);
            assert(all_dec_digits(t.take(i - start + 1))) by {
                assert(forall|k: int|
                    0 <= k < i - start ==> #[trigger] t.take(i - start + 1)[k] == t.take(
                        i - start,
                    )[k]);
                assert(t.take(i - start + 1)[i - start] == t[i - start]);
            }
        }
        if v > 65535 {
            proof {
                if all_dec_digits(t) {
                    lemma_digits_value_monotone(t, i - start + 1, t.len() as int);
                    assert(t.take(t.len() as int) =~= t);
                }
            }
            proof {
                if all_dec_digits(t) {
                    assert(digits_value(t) > 65535);
                }
                assert(port_spec(val@) is None);
            }
            return Err(String::from_str("port is out of range"));
        }
        acc = v;
        i = i + 1;
    }
    proof {
        assert(t.take(t.len() as int) =~= t);
    }
    Ok(acc as u16)
}

} // verus!
