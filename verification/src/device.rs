//! One discovered LED device: its identifier, its display name, and the
//! on/off state parsed from the textual contents of its `brightness`
//! attribute file.

use vstd::prelude::*;
use vstd::string::StrSliceExecFns;
use vstd::string::StringExecFns;
use crate::text::push_char;

verus! {

/// The whitespace characters stripped from either end of the brightness
/// file's contents before parsing (the usual trailing byte is a newline).
pub open spec fn is_space_char(c: char) -> bool {
    c == ' ' || c == '\t' || c == '\n' || c == '\r'
}

/// `s` with its leading whitespace removed.
pub open spec fn trim_front(s: Seq<char>) -> Seq<char>
    decreases s.len(),
{
    if s.len() > 0 && is_space_char(s[0]) {
        trim_front(s.drop_first())
    } else {
        s
    }
}

/// `s` with its trailing whitespace removed.
pub open spec fn trim_back(s: Seq<char>) -> Seq<char>
    decreases s.len(),
{
    if s.len() > 0 && is_space_char(s.last()) {
        trim_back(s.drop_last())
    } else {
        s
    }
}

/// `s` with whitespace removed from both ends.
pub open spec fn trimmed(s: Seq<char>) -> Seq<char> {
    trim_back(trim_front(s))
}

pub open spec fn is_digit_char(c: char) -> bool {
    48 <= c as u32 && c as u32 <= 57
}

/// The numeric value of a digit character (0 for a non-digit, so that
/// `digits_value` is total).
pub open spec fn digit_value(c: char) -> nat {
    if is_digit_char(c) {
        (c as u32 - 48) as nat
    } else {
        0
    }
}

pub open spec fn all_digits(s: Seq<char>) -> bool {
    forall|i: int| 0 <= i < s.len() ==> is_digit_char(s[i])
}

/// The value of a sequence of decimal digit characters, most significant
/// first.
pub open spec fn digits_value(s: Seq<char>) -> nat
    decreases s.len(),
{
    if s.len() == 0 {
        0
    } else {
        digits_value(s.drop_last()) * 10 + digit_value(s.last())
    }
}

/// Whether `s` (already trimmed) is a well-formed brightness numeral: a
/// nonempty run of decimal digits whose value fits the 8-bit range.
pub open spec fn parses_as_u8(s: Seq<char>) -> bool {
    s.len() > 0 && all_digits(s) && digits_value(s) <= 255
}

/// The brightness encoded by the raw contents of a brightness file.
pub open spec fn brightness_value(data: Seq<char>) -> nat {
    digits_value(trimmed(data))
}

/// The display name derived from a device identifier: every (non-overlapping,
/// leftmost-first) occurrence of the namespace separator `::` replaced by a
/// single space.
pub open spec fn display_of(s: Seq<char>) -> Seq<char>
    decreases s.len(),
{
    if s.len() >= 2 && s[0] == ':' && s[1] == ':' {
        seq![' '] + display_of(s.skip(2))
    } else if s.len() >= 1 {
        seq![s[0]] + display_of(s.skip(1))
    } else {
        Seq::<char>::empty()
    }
}

/// One discovered LED device.
#[derive(Debug)]
pub struct LED {
    /// The raw directory name of the device, its unique key.
    pub file_name: String,
    /// Presentation-only name: `file_name` with `::` replaced by a space.
    pub name: String,
    /// True iff the parsed brightness is greater than zero.
    pub is_on: bool,
}

/// Whether `led` is the record that a well-formed device directory named
/// `file_name` with brightness contents `data` gives rise to.
pub open spec fn led_of(led: LED, file_name: Seq<char>, data: Seq<char>) -> bool {
    &&& led.file_name@ == file_name
    &&& led.name@ == display_of(file_name)
    &&& led.is_on == (brightness_value(data) > 0)
}

/// Why a single device record could not be constructed.
#[derive(Debug)]
pub enum NewLEDError {
    /// The per-device directory vanished or never existed.
    NotFound,
    /// The brightness contents are non-numeric or out of the 8-bit range.
    InvalidBrightness,
    /// The device directory name is not valid text.
    InvalidFileName,
    /// Any other filesystem failure, carrying its rendered message.
    IOError(String),
}

impl Clone for NewLEDError {
    fn clone(&self) -> (r: Self)
        ensures
            r == *self,
    {
        match self {
            NewLEDError::NotFound => NewLEDError::NotFound,
            NewLEDError::InvalidBrightness => NewLEDError::InvalidBrightness,
            NewLEDError::InvalidFileName => NewLEDError::InvalidFileName,
            NewLEDError::IOError(msg) => NewLEDError::IOError(msg.clone()),
        }
    }
}

/// The human-readable message for each error.
pub open spec fn message_of(e: NewLEDError) -> Seq<char> {
    match e {
        NewLEDError::NotFound => "LED does not exist"@,
        NewLEDError::InvalidBrightness => "Invalid brightness value"@,
        NewLEDError::InvalidFileName => "Invalid encoding in file name"@,
        NewLEDError::IOError(msg) => "I/O error: "@ + msg@,
    }
}

impl NewLEDError {
    /// Renders the error as a human-readable line.
    pub fn message(&self) -> (r: String)
        ensures
            r@ == message_of(*self),
    {
        match self {
            NewLEDError::NotFound => String::from_str("LED does not exist"),
            NewLEDError::InvalidBrightness => String::from_str("Invalid brightness value"),
            NewLEDError::InvalidFileName => String::from_str("Invalid encoding in file name"),
            NewLEDError::IOError(msg) => String::from_str("I/O error: ").concat(msg.as_str()),
        }
    }
}

fn is_space(c: char) -> (r: bool)
    ensures
        r == is_space_char(c),
{
    c == ' ' || c == '\t' || c == '\n' || c == '\r'
}

/// The value of every digit run extends the value of each of its prefixes.
proof fn lemma_digits_value_prefix_le(s: Seq<char>, k: int)
    requires
        0 <= k <= s.len(),
    ensures
        digits_value(s.subrange(0, k)) <= digits_value(s),
    decreases s.len() - k,
{
    if k == s.len() {
        assert(s.subrange(0, k) =~= s);
    } else {
        let p = s.subrange(0, k);
        let q = s.subrange(0, k + 1);
        assert(q.drop_last() =~= p);
        assert(digits_value(q) == digits_value(p) * 10 + digit_value(q.last()));
        lemma_digits_value_prefix_le(s, k + 1);
    }
}

/// Parses the raw contents of a brightness file: trims whitespace from both
/// ends, then reads a nonempty run of decimal digits whose value fits in
/// `u8`. Returns `None` exactly when the trimmed contents are not such a
/// numeral.
pub fn parse_brightness(data: &str) -> (r: Option<u8>)
    ensures
        match r {
            Some(v) => parses_as_u8(trimmed(data@)) && v as nat == brightness_value(data@),
            None => !parses_as_u8(trimmed(data@)),
        },
{
    let n: usize = data.unicode_len();
    let mut start: usize = 0;
    proof {
        assert(data@.skip(0) =~= data@);
    }
    while start < n
        invariant
            start <= n,
            n == data@.len(),
            trim_front(data@.skip(start as int)) == trim_front(data@),
        ensures
            start <= n,
            n == data@.len(),
            trim_front(data@) == data@.skip(start as int),
        decreases n - start,
    {
        let c = data.get_char(start);
        if !is_space(c) {
            proof {
                assert(trim_front(data@.skip(start as int)) == data@.skip(start as int));
            }
            break;
        }
        proof {
            assert(data@.skip(start as int).drop_first() =~= data@.skip(start as int + 1));
        }
        start = start + 1;
    }
    let mut end: usize = n;
    while end > start
        invariant
            start <= end <= n,
            n == data@.len(),
            trim_front(data@) == data@.skip(start as int),
            trim_back(data@.subrange(start as int, end as int)) == trimmed(data@),
        ensures
            start <= end <= n,
            n == data@.len(),
            trimmed(data@) == data@.subrange(start as int, end as int),
        decreases end,
    {
        let c = data.get_char(end - 1);
        if !is_space(c) {
            proof {
                assert(trim_back(data@.subrange(start as int, end as int)) == data@.subrange(
                    start as int,
                    end as int,
                ));
            }
            break;
        }
        proof {
            assert(data@.subrange(start as int, end as int).drop_last() =~= data@.subrange(
                start as int,
                end as int - 1,
            ));
        }
        end = end - 1;
    }
    let ghost t = trimmed(data@);
    if end == start {
        proof {
            assert(t.len() == 0);
        }
        return None;
    }
    let mut value: u32 = 0;
    let mut i: usize = start;
    while i < end
        invariant
            start <= i <= end <= n,
            n == data@.len(),
            end > start,
            t == data@.subrange(start as int, end as int),
            t == trimmed(data@),
            all_digits(t.subrange(0, i - start)),
            value as nat == digits_value(t.subrange(0, i - start)),
            value <= 255,
        decreases end - i,
    {
        let c = data.get_char(i);
        let u = c as u32;
        proof {
            assert(t[i - start] == data@[i as int]);
        }
        if u < 48 || u > 57 {
            proof {
                assert(!is_digit_char(t[i - start]));
            }
            return None;
        }
        let d = u - 48;
        let nv = value * 10 + d;
        proof {
            assert(t.subrange(0, i - start + 1).drop_last() =~= t.subrange(0, i - start));
            assert(t.subrange(0, i - start + 1).last() == t[i - start]);
            assert(digits_value(t.subrange(0, i - start + 1)) == nv as nat);
        }
        if nv > 255 {
            proof {
                lemma_digits_value_prefix_le(t, i - start + 1);
            }
            return None;
        }
        value = nv;
        proof {
            assert(all_digits(t.subrange(0, i - start + 1)));
        }
        i = i + 1;
    }
    proof {
        assert(t.subrange(0, end - start) =~= t);
    }
    Some(value as u8)
}

/// Derives the display name from a device identifier, replacing each
/// leftmost occurrence of `::` by a single space.
pub fn display_name(file_name: &str) -> (r: String)
    ensures
        r@ == display_of(file_name@),
{
    let n: usize = file_name.unicode_len();
    let mut out = String::new();
    let mut i: usize = 0;
    proof {
        assert(file_name@.skip(0) =~= file_name@);
        assert(out@ + display_of(file_name@) =~= display_of(file_name@));
    }
    while i < n
        invariant
            i <= n,
            n == file_name@.len(),
            display_of(file_name@) == out@ + display_of(file_name@.skip(i as int)),
        decreases n - i,
    {
        let c = file_name.get_char(i);
        if c == ':' && i + 1 < n && file_name.get_char(i + 1) == ':' {
            push_char(&mut out, ' ');
            proof {
                let sk = file_name@.skip(i as int);
                assert(sk.skip(2) =~= file_name@.skip(i as int + 2));
                assert(display_of(sk) == seq![' '] + display_of(file_name@.skip(i as int + 2)));
                assert(out@ + display_of(file_name@.skip(i as int + 2)) =~= display_of(
                    file_name@,
                ));
            }
            i = i + 2;
        } else {
            push_char(&mut out, c);
            proof {
                let sk = file_name@.skip(i as int);
                assert(sk.skip(1) =~= file_name@.skip(i as int + 1));
                assert(display_of(sk) == seq![sk[0]] + display_of(file_name@.skip(i as int + 1)));
                assert(out@ + display_of(file_name@.skip(i as int + 1)) =~= display_of(
                    file_name@,
                ));
            }
            i = i + 1;
        }
    }
    proof {
        assert(file_name@.skip(n as int).len() == 0);
        assert(out@ + display_of(file_name@.skip(n as int)) =~= out@);
    }
    out
}

impl LED {
    /// Builds the record for one device from its directory name and the raw
    /// contents of its brightness file. Fails with `InvalidBrightness`
    /// exactly when the trimmed contents are not a decimal numeral in the
    /// 8-bit range.
    pub fn new(file_name: String, brightness_data: String) -> (r: Result<LED, NewLEDError>)
        ensures
            match r {
                Ok(led) => parses_as_u8(trimmed(brightness_data@)) && led_of(
                    led,
                    file_name@,
                    brightness_data@,
                ),
                Err(e) => !parses_as_u8(trimmed(brightness_data@)) && e is InvalidBrightness,
            },
    {
        let brightness = match parse_brightness(brightness_data.as_str()) {
            Some(v) => v,
            None => {
                return Err(NewLEDError::InvalidBrightness);
            },
        };
        let name = display_name(file_name.as_str());
        Ok(LED { name, file_name, is_on: brightness > 0 })
    }
}

} // verus!
