use vstd::prelude::*;

verus! {

use crate::digits::dec_value;
use crate::digits::read_u32;
use crate::digits::read_u8;
use crate::record::ParserError;
use crate::record::StatusRecord;
use crate::scan::ascii_bytes;
use crate::scan::ascii_seq;
use crate::scan::digits_end;
use crate::scan::dots_spaces_end;
use crate::scan::has_lit_at;
use crate::scan::is_digit;
use crate::scan::is_space;
use crate::scan::is_space_byte;
use crate::scan::lit_at;
use crate::scan::skip_digits;
use crate::scan::skip_dots_spaces;
use crate::scan::skip_spaces;
use crate::scan::spaces_end;
use crate::scan::digit_pred;
use crate::scan::dot_space_pred;
use crate::scan::space_pred;
use crate::scan::lemma_skip_while;
use crate::scan::lemma_skip_while_run;

// The fixed literals of the status layout.

pub open spec fn lit_utility() -> Seq<u8> {
    ascii_seq("Utility Voltage"@)
}

pub open spec fn lit_output() -> Seq<u8> {
    ascii_seq("Output Voltage"@)
}

pub open spec fn lit_battery() -> Seq<u8> {
    ascii_seq("Battery Capacity"@)
}

pub open spec fn lit_runtime() -> Seq<u8> {
    ascii_seq("Remaining Runtime"@)
}

pub open spec fn lit_load() -> Seq<u8> {
    ascii_seq("Load"@)
}

pub open spec fn lit_volts_eol() -> Seq<u8> {
    ascii_seq("V\n"@)
}

pub open spec fn lit_percent_eol() -> Seq<u8> {
    ascii_seq(" %\n"@)
}

pub open spec fn lit_minutes() -> Seq<u8> {
    ascii_seq(" min"@)
}

pub open spec fn lit_eol() -> Seq<u8> {
    ascii_seq("\n"@)
}

pub open spec fn lit_watt_open() -> Seq<u8> {
    ascii_seq(" Watt("@)
}

// The grammar of one status report, matched at a fixed position. Every
// repeated class (filler, digits, whitespace) takes its maximal run; each
// run's class is disjoint from the byte that must follow it, so the maximal
// run is the only one a successful match can take.

/// A field label, its dot-or-space filler (at least one byte) and its digit
/// run (at least one byte): yields the run's decimal value and the position
/// just after it.
pub open spec fn label_value_end(s: Seq<u8>, i: int, label: Seq<u8>) -> Option<(nat, int)> {
    if lit_at(s, i, label) {
        let a = i + label.len();
        let b = dots_spaces_end(s, a);
        if b > a {
            let c = digits_end(s, b);
            if c > b {
                Some((dec_value(s.subrange(b, c)), c))
            } else {
                None
            }
        } else {
            None
        }
    } else {
        None
    }
}

/// A voltage line: label, filler, value, one whitespace byte, then `V` and
/// the end of the line.
pub open spec fn voltage_section_end(s: Seq<u8>, i: int, label: Seq<u8>) -> Option<(nat, int)> {
    match label_value_end(s, i, label) {
        Some((v, c)) => if c < s.len() && is_space(s[c]) && lit_at(s, c + 1, lit_volts_eol()) {
            Some((v, c + 1 + lit_volts_eol().len()))
        } else {
            None
        },
        None => None,
    }
}

/// The battery line: label, filler, value, then ` %` and the end of the line.
pub open spec fn battery_section_end(s: Seq<u8>, i: int) -> Option<(nat, int)> {
    match label_value_end(s, i, lit_battery()) {
        Some((v, c)) => if lit_at(s, c, lit_percent_eol()) {
            Some((v, c + lit_percent_eol().len()))
        } else {
            None
        },
        None => None,
    }
}

/// The runtime line: label, filler, value, then ` min`, one byte that is not
/// a line feed (the layout's permissive wildcard after `min`), and the end of
/// the line.
pub open spec fn runtime_section_end(s: Seq<u8>, i: int) -> Option<(nat, int)> {
    match label_value_end(s, i, lit_runtime()) {
        Some((v, c)) => {
            let m = lit_minutes().len();
            if lit_at(s, c, lit_minutes()) && c + m < s.len() && s[c + m] != 10 && lit_at(
                s,
                c + m + 1,
                lit_eol(),
            ) {
                Some((v, c + m + 1 + lit_eol().len()))
            } else {
                None
            }
        },
        None => None,
    }
}

/// The load line: label, filler, the watt value, then ` Watt(` and the
/// percent value, captured greedily with no closing delimiter.
pub open spec fn load_section_end(s: Seq<u8>, i: int) -> Option<(nat, nat)> {
    match label_value_end(s, i, lit_load()) {
        Some((w, c)) => if lit_at(s, c, lit_watt_open()) {
            let d = c + lit_watt_open().len();
            let e = digits_end(s, d);
            if e > d {
                Some((w, dec_value(s.subrange(d, e))))
            } else {
                None
            }
        } else {
            None
        },
        None => None,
    }
}

/// One whole status report matched at position `i` of `s`: the five labelled
/// sections in their fixed order, each separated from the next by at least
/// one whitespace byte after its line break. Yields the six captured values
/// in the order utility voltage, output voltage, battery capacity, remaining
/// runtime, load watts, load percent.
pub open spec fn match_at(s: Seq<u8>, i: int) -> Option<(nat, nat, nat, nat, nat, nat)> {
    match voltage_section_end(s, i, lit_utility()) {
        Some((uv, p1)) => {
            let q1 = spaces_end(s, p1);
            if q1 > p1 {
                match voltage_section_end(s, q1, lit_output()) {
                    Some((ov, p2)) => {
                        let q2 = spaces_end(s, p2);
                        if q2 > p2 {
                            match battery_section_end(s, q2) {
                                Some((bc, p3)) => {
                                    let q3 = spaces_end(s, p3);
                                    if q3 > p3 {
                                        match runtime_section_end(s, q3) {
                                            Some((rt, p4)) => {
                                                let q4 = spaces_end(s, p4);
                                                if q4 > p4 {
                                                    match load_section_end(s, q4) {
                                                        Some((lw, lp)) => Some(
                                                            (uv, ov, bc, rt, lw, lp),
                                                        ),
                                                        None => None,
                                                    }
                                                } else {
                                                    None
                                                }
                                            },
                                            None => None,
                                        }
                                    } else {
                                        None
                                    }
                                },
                                None => None,
                            }
                        } else {
                            None
                        }
                    },
                    None => None,
                }
            } else {
                None
            }
        },
        None => None,
    }
}

/// The leftmost match of the status layout at or after position `i`.
pub open spec fn scan_from(s: Seq<u8>, i: int) -> Option<(nat, nat, nat, nat, nat, nat)>
    decreases s.len() - i,
{
    match match_at(s, i) {
        Some(v) => Some(v),
        None => if i < s.len() {
            scan_from(s, i + 1)
        } else {
            None
        },
    }
}

/// The leftmost match of the status layout anywhere in `s`.
pub open spec fn pattern_match(s: Seq<u8>) -> Option<(nat, nat, nat, nat, nat, nat)> {
    scan_from(s, 0)
}

/// What `parse` returns on any input: the leftmost match of the layout,
/// converted field by field, or the error that says why there is no record.
pub open spec fn spec_parse(s: Seq<u8>) -> Result<StatusRecord, ParserError> {
    match pattern_match(s) {
        None => Err(ParserError::FormatMismatchError),
        Some((uv, ov, bc, rt, lw, lp)) => if uv > u32::MAX || ov > u32::MAX || bc > u8::MAX || rt
            > u32::MAX || lw > u32::MAX || lp > u8::MAX {
            Err(ParserError::NumericConversionError)
        } else {
            Ok(
                StatusRecord {
                    utility_voltage: uv as u32,
                    output_voltage: ov as u32,
                    battery_capacity: bc as u8,
                    remaining_runtime: rt as u32,
                    load_watts: lw as u32,
                    load_percent: lp as u8,
                },
            )
        },
    }
}

// The executable matcher. Each helper mirrors one section of the grammar and
// reports the digit runs it captured as index spans into the text.

/// Bounds of one captured digit run: start and end index into the text.
pub open spec fn wf_span(sp: (usize, usize), s: Seq<u8>) -> bool {
    &&& sp.0 <= sp.1 <= s.len()
    &&& forall|k: int| sp.0 <= k < sp.1 ==> is_digit(#[trigger] s[k])
}

/// Decimal value of the digit run a span points at.
pub open spec fn span_value(sp: (usize, usize), s: Seq<u8>) -> nat {
    dec_value(s.subrange(sp.0 as int, sp.1 as int))
}

/// The six captured digit runs of one successful match, as spans into the
/// text, in the same order as the captured values.
pub struct FieldSpans {
    pub utility: (usize, usize),
    pub output: (usize, usize),
    pub battery: (usize, usize),
    pub runtime: (usize, usize),
    pub watts: (usize, usize),
    pub percent: (usize, usize),
}

impl FieldSpans {
    /// All six spans are in bounds and point at digit runs.
    pub open spec fn wf(self, s: Seq<u8>) -> bool {
        &&& wf_span(self.utility, s)
        &&& wf_span(self.output, s)
        &&& wf_span(self.battery, s)
        &&& wf_span(self.runtime, s)
        &&& wf_span(self.watts, s)
        &&& wf_span(self.percent, s)
    }

    /// The captured values, in the order the grammar yields them.
    pub open spec fn values(self, s: Seq<u8>) -> (nat, nat, nat, nat, nat, nat) {
        (
            span_value(self.utility, s),
            span_value(self.output, s),
            span_value(self.battery, s),
            span_value(self.runtime, s),
            span_value(self.watts, s),
            span_value(self.percent, s),
        )
    }
}

fn label_value(s: &[u8], i: usize, label: &[u8]) -> (r: Option<((usize, usize), usize)>)
    requires
        i <= s@.len(),
    ensures
        match r {
            None => label_value_end(s@, i as int, label@) is None,
            Some((sp, c)) => {
                &&& wf_span(sp, s@)
                &&& sp.0 < sp.1
                &&& c == sp.1
                &&& label_value_end(s@, i as int, label@) == Some(
                    (span_value(sp, s@), c as int),
                )
            },
        },
{
    let n = s.len();
    if !has_lit_at(s, i, label) {
        return None;
    }
    let a = i + label.len();
    let b = skip_dots_spaces(s, a);
    if b == a {
        return None;
    }
    let c = skip_digits(s, b);
    if c == b {
        return None;
    }
    proof {
        lemma_skip_while(s@, b as int, digit_pred());
    }
    Some(((b, c), c))
}

fn voltage_section(s: &[u8], i: usize, label: &[u8], volts_eol: &[u8]) -> (r: Option<
    ((usize, usize), usize),
>)
    requires
        i <= s@.len(),
        volts_eol@ == lit_volts_eol(),
    ensures
        match r {
            None => voltage_section_end(s@, i as int, label@) is None,
            Some((sp, p)) => {
                &&& wf_span(sp, s@)
                &&& p <= s@.len()
                &&& voltage_section_end(s@, i as int, label@) == Some(
                    (span_value(sp, s@), p as int),
                )
            },
        },
{
    let (sp, c) = match label_value(s, i, label) {
        Some(x) => x,
        None => {
            return None;
        },
    };
    if c < s.len() && is_space_byte(s[c]) && has_lit_at(s, c + 1, volts_eol) {
        Some((sp, c + 1 + volts_eol.len()))
    } else {
        None
    }
}

fn battery_section(s: &[u8], i: usize, label: &[u8], percent_eol: &[u8]) -> (r: Option<
    ((usize, usize), usize),
>)
    requires
        i <= s@.len(),
        label@ == lit_battery(),
        percent_eol@ == lit_percent_eol(),
    ensures
        match r {
            None => battery_section_end(s@, i as int) is None,
            Some((sp, p)) => {
                &&& wf_span(sp, s@)
                &&& p <= s@.len()
                &&& battery_section_end(s@, i as int) == Some((span_value(sp, s@), p as int))
            },
        },
{
    let n = s.len();
    let (sp, c) = match label_value(s, i, label) {
        Some(x) => x,
        None => {
            return None;
        },
    };
    if has_lit_at(s, c, percent_eol) {
        Some((sp, c + percent_eol.len()))
    } else {
        None
    }
}

fn runtime_section(s: &[u8], i: usize, label: &[u8], minutes: &[u8], eol: &[u8]) -> (r: Option<
    ((usize, usize), usize),
>)
    requires
        i <= s@.len(),
        label@ == lit_runtime(),
        minutes@ == lit_minutes(),
        eol@ == lit_eol(),
    ensures
        match r {
            None => runtime_section_end(s@, i as int) is None,
            Some((sp, p)) => {
                &&& wf_span(sp, s@)
                &&& p <= s@.len()
                &&& runtime_section_end(s@, i as int) == Some((span_value(sp, s@), p as int))
            },
        },
{
    let n = s.len();
    let (sp, c) = match label_value(s, i, label) {
        Some(x) => x,
        None => {
            return None;
        },
    };
    let m = minutes.len();
    if has_lit_at(s, c, minutes) && c + m < s.len() && s[c + m] != 10 && has_lit_at(
        s,
        c + m + 1,
        eol,
    ) {
        Some((sp, c + m + 1 + eol.len()))
    } else {
        None
    }
}

fn load_section(s: &[u8], i: usize, label: &[u8], watt_open: &[u8]) -> (r: Option<
    ((usize, usize), (usize, usize)),
>)
    requires
        i <= s@.len(),
        label@ == lit_load(),
        watt_open@ == lit_watt_open(),
    ensures
        match r {
            None => load_section_end(s@, i as int) is None,
            Some((sw, sl)) => {
                &&& wf_span(sw, s@)
                &&& wf_span(sl, s@)
                &&& load_section_end(s@, i as int) == Some(
                    (span_value(sw, s@), span_value(sl, s@)),
                )
            },
        },
{
    let n = s.len();
    let (sw, c) = match label_value(s, i, label) {
        Some(x) => x,
        None => {
            return None;
        },
    };
    if !has_lit_at(s, c, watt_open) {
        return None;
    }
    let d = c + watt_open.len();
    let e = skip_digits(s, d);
    if e == d {
        return None;
    }
    proof {
        lemma_skip_while(s@, d as int, digit_pred());
    }
    Some((sw, (d, e)))
}

/// Tries to match one whole status report at position `i` of the text,
/// reporting the six captured digit runs.
fn try_match_at(s: &[u8], i: usize) -> (r: Option<FieldSpans>)
    requires
        i <= s@.len(),
    ensures
        match r {
            None => match_at(s@, i as int) is None,
            Some(sp) => sp.wf(s@) && match_at(s@, i as int) == Some(sp.values(s@)),
        },
{
    proof {
        reveal_strlit("Utility Voltage");
        reveal_strlit("Output Voltage");
        reveal_strlit("Battery Capacity");
        reveal_strlit("Remaining Runtime");
        reveal_strlit("Load");
        reveal_strlit("V\n");
        reveal_strlit(" %\n");
        reveal_strlit(" min");
        reveal_strlit("\n");
        reveal_strlit(" Watt(");
    }
    let lab_utility = ascii_bytes("Utility Voltage");
    let lab_output = ascii_bytes("Output Voltage");
    let lab_battery = ascii_bytes("Battery Capacity");
    let lab_runtime = ascii_bytes("Remaining Runtime");
    let lab_load = ascii_bytes("Load");
    let lab_volts = ascii_bytes("V\n");
    let lab_percent = ascii_bytes(" %\n");
    let lab_minutes = ascii_bytes(" min");
    let lab_eol = ascii_bytes("\n");
    let lab_watt = ascii_bytes(" Watt(");
    let (sp1, p1) = match voltage_section(s, i, lab_utility, lab_volts) {
        Some(x) => x,
        None => {
            return None;
        },
    };
    let q1 = skip_spaces(s, p1);
    if q1 == p1 {
        return None;
    }
    let (sp2, p2) = match voltage_section(s, q1, lab_output, lab_volts) {
        Some(x) => x,
        None => {
            return None;
        },
    };
    let q2 = skip_spaces(s, p2);
    if q2 == p2 {
        return None;
    }
    let (sp3, p3) = match battery_section(s, q2, lab_battery, lab_percent) {
        Some(x) => x,
        None => {
            return None;
        },
    };
    let q3 = skip_spaces(s, p3);
    if q3 == p3 {
        return None;
    }
    let (sp4, p4) = match runtime_section(s, q3, lab_runtime, lab_minutes, lab_eol) {
        Some(x) => x,
        None => {
            return None;
        },
    };
    let q4 = skip_spaces(s, p4);
    if q4 == p4 {
        return None;
    }
    let (sp5, sp6) = match load_section(s, q4, lab_load, lab_watt) {
        Some(x) => x,
        None => {
            return None;
        },
    };
    Some(
        FieldSpans {
            utility: sp1,
            output: sp2,
            battery: sp3,
            runtime: sp4,
            watts: sp5,
            percent: sp6,
        },
    )
}

/// Extracts a `StatusRecord` from the raw bytes of a captured status report.
///
/// The text is scanned for the leftmost occurrence of the fixed layout, so
/// leading and trailing lines around the five field lines are ignored. Fails
/// with `FormatMismatchError` when the layout occurs nowhere in the text,
/// and with `NumericConversionError` when a captured digit run denotes a
/// value that does not fit its field.
pub fn parse(text: &[u8]) -> (r: Result<StatusRecord, ParserError>)
    ensures
        r == spec_parse(text@),
{
    let n = text.len();
    let mut i: usize = 0;
    while i < n
        invariant
            i <= n == text@.len(),
            scan_from(text@, 0) == scan_from(text@, i as int),
        decreases n - i,
    {
        match try_match_at(text, i) {
            Some(sp) => {
                let uv = match read_u32(text, sp.utility.0, sp.utility.1) {
                    Some(v) => v,
                    None => {
                        return Err(ParserError::NumericConversionError);
                    },
                };
                let ov = match read_u32(text, sp.output.0, sp.output.1) {
                    Some(v) => v,
                    None => {
                        return Err(ParserError::NumericConversionError);
                    },
                };
                let bc = match read_u8(text, sp.battery.0, sp.battery.1) {
                    Some(v) => v,
                    None => {
                        return Err(ParserError::NumericConversionError);
                    },
                };
                let rt = match read_u32(text, sp.runtime.0, sp.runtime.1) {
                    Some(v) => v,
                    None => {
                        return Err(ParserError::NumericConversionError);
                    },
                };
                let lw = match read_u32(text, sp.watts.0, sp.watts.1) {
                    Some(v) => v,
                    None => {
                        return Err(ParserError::NumericConversionError);
                    },
                };
                let lp = match read_u8(text, sp.percent.0, sp.percent.1) {
                    Some(v) => v,
                    None => {
                        return Err(ParserError::NumericConversionError);
                    },
                };
                return Ok(
                    StatusRecord {
                        utility_voltage: uv,
                        output_voltage: ov,
                        battery_capacity: bc,
                        remaining_runtime: rt,
                        load_watts: lw,
                        load_percent: lp,
                    },
                );
            },
            None => {
                i = i + 1;
            },
        }
    }
    proof {
        reveal_strlit("Utility Voltage");
        assert(!lit_at(text@, n as int, lit_utility()));
        assert(match_at(text@, n as int) is None);
    }
    Err(ParserError::FormatMismatchError)
}

// A status text assembled from its parts, and the proof that the matcher
// extracts exactly the values written into it, however the variable runs
// of filler and whitespace are chosen.

/// At least one byte, all of class `p`.
pub open spec fn run_of(s: Seq<u8>, p: spec_fn(u8) -> bool) -> bool {
    s.len() > 0 && forall|i: int| 0 <= i < s.len() ==> p(#[trigger] s[i])
}

/// A voltage line of the layout: label, filler, digits, one whitespace
/// byte, then `V` and the line break.
pub open spec fn voltage_line(label: Seq<u8>, filler: Seq<u8>, digits: Seq<u8>, sep: u8) -> Seq<
    u8,
> {
    label + filler + digits + seq![sep] + lit_volts_eol()
}

/// The battery line: label, filler, digits, then ` %` and the line break.
pub open spec fn battery_line(filler: Seq<u8>, digits: Seq<u8>) -> Seq<u8> {
    lit_battery() + filler + digits + lit_percent_eol()
}

/// The runtime line: label, filler, digits, then ` min`, one free byte that
/// is not a line break, and the line break.
pub open spec fn runtime_line(filler: Seq<u8>, digits: Seq<u8>, wildcard: u8) -> Seq<u8> {
    lit_runtime() + filler + digits + lit_minutes() + seq![wildcard] + lit_eol()
}

/// The load line, unterminated after the percent digits.
pub open spec fn load_line(filler: Seq<u8>, watt_digits: Seq<u8>, percent_digits: Seq<u8>) -> Seq<
    u8,
> {
    lit_load() + filler + watt_digits + lit_watt_open() + percent_digits
}

/// One status text in the expected layout, given by its variable parts: the
/// filler and digit runs of the five field lines, the whitespace runs
/// between the lines, the free byte after `min`, and whatever follows the
/// percent digits.
pub ghost struct Layout {
    pub utility_filler: Seq<u8>,
    pub utility_digits: Seq<u8>,
    pub utility_sep: u8,
    pub gap1: Seq<u8>,
    pub output_filler: Seq<u8>,
    pub output_digits: Seq<u8>,
    pub output_sep: u8,
    pub gap2: Seq<u8>,
    pub battery_filler: Seq<u8>,
    pub battery_digits: Seq<u8>,
    pub gap3: Seq<u8>,
    pub runtime_filler: Seq<u8>,
    pub runtime_digits: Seq<u8>,
    pub wildcard: u8,
    pub gap4: Seq<u8>,
    pub load_filler: Seq<u8>,
    pub watt_digits: Seq<u8>,
    pub percent_digits: Seq<u8>,
    pub tail: Seq<u8>,
}

impl Layout {
    /// Every variable part stays within its class: fillers are dots and
    /// spaces, digit runs are digits, gaps are whitespace, each nonempty;
    /// the free byte is not a line break; and the trailing text does not
    /// begin with a digit (which would extend the greedy percent capture).
    pub open spec fn wf(self) -> bool {
        &&& run_of(self.utility_filler, dot_space_pred())
        &&& run_of(self.utility_digits, digit_pred())
        &&& is_space(self.utility_sep)
        &&& run_of(self.gap1, space_pred())
        &&& run_of(self.output_filler, dot_space_pred())
        &&& run_of(self.output_digits, digit_pred())
        &&& is_space(self.output_sep)
        &&& run_of(self.gap2, space_pred())
        &&& run_of(self.battery_filler, dot_space_pred())
        &&& run_of(self.battery_digits, digit_pred())
        &&& run_of(self.gap3, space_pred())
        &&& run_of(self.runtime_filler, dot_space_pred())
        &&& run_of(self.runtime_digits, digit_pred())
        &&& self.wildcard != 10
        &&& run_of(self.gap4, space_pred())
        &&& run_of(self.load_filler, dot_space_pred())
        &&& run_of(self.watt_digits, digit_pred())
        &&& run_of(self.percent_digits, digit_pred())
        &&& (self.tail.len() == 0 || !is_digit(self.tail[0]))
    }

    pub open spec fn line1(self) -> Seq<u8> {
        voltage_line(lit_utility(), self.utility_filler, self.utility_digits, self.utility_sep)
    }

    pub open spec fn line2(self) -> Seq<u8> {
        voltage_line(lit_output(), self.output_filler, self.output_digits, self.output_sep)
    }

    pub open spec fn line3(self) -> Seq<u8> {
        battery_line(self.battery_filler, self.battery_digits)
    }

    pub open spec fn line4(self) -> Seq<u8> {
        runtime_line(self.runtime_filler, self.runtime_digits, self.wildcard)
    }

    pub open spec fn line5(self) -> Seq<u8> {
        load_line(self.load_filler, self.watt_digits, self.percent_digits)
    }

    /// The whole text: the five lines with their separating whitespace,
    /// then the trailing text.
    pub open spec fn text(self) -> Seq<u8> {
        self.line1() + self.gap1 + self.line2() + self.gap2 + self.line3() + self.gap3
            + self.line4() + self.gap4 + self.line5() + self.tail
    }

    /// The six values written into the text, in capture order.
    pub open spec fn values(self) -> (nat, nat, nat, nat, nat, nat) {
        (
            dec_value(self.utility_digits),
            dec_value(self.output_digits),
            dec_value(self.battery_digits),
            dec_value(self.runtime_digits),
            dec_value(self.watt_digits),
            dec_value(self.percent_digits),
        )
    }
}

proof fn lemma_label_value_run(s: Seq<u8>, i: int, label: Seq<u8>, filler: Seq<u8>, digits: Seq<
    u8,
>)
    requires
        lit_at(s, i, label),
        run_of(filler, dot_space_pred()),
        run_of(digits, digit_pred()),
        i + label.len() + filler.len() + digits.len() <= s.len(),
        s.subrange(i + label.len(), i + label.len() + filler.len()) == filler,
        s.subrange(
            i + label.len() + filler.len(),
            i + label.len() + filler.len() + digits.len(),
        ) == digits,
        i + label.len() + filler.len() + digits.len() == s.len() || !is_digit(
            s[i + label.len() + filler.len() + digits.len()],
        ),
    ensures
        label_value_end(s, i, label) == Some(
            (dec_value(digits), i + label.len() + filler.len() + digits.len()),
        ),
{
    let a = i + label.len();
    let b = a + filler.len();
    let c = b + digits.len();
    assert forall|k: int| a <= k < b implies dot_space_pred()(s[k]) by {
        assert(s[k] == filler[k - a]);
    }
    assert(s[b] == digits[0]);
    assert(!dot_space_pred()(s[b]));
    lemma_skip_while_run(s, a, b, dot_space_pred());
    assert forall|k: int| b <= k < c implies digit_pred()(s[k]) by {
        assert(s[k] == digits[k - b]);
    }
    if c < s.len() {
        assert(!digit_pred()(s[c]));
    }
    lemma_skip_while_run(s, b, c, digit_pred());
    assert(s.subrange(b, c) == digits);
}

proof fn lemma_voltage_line_at(s: Seq<u8>, i: int, label: Seq<u8>, filler: Seq<u8>, digits: Seq<
    u8,
>, sep: u8)
    requires
        0 <= i,
        i + voltage_line(label, filler, digits, sep).len() <= s.len(),
        s.subrange(i, i + voltage_line(label, filler, digits, sep).len()) == voltage_line(
            label,
            filler,
            digits,
            sep,
        ),
        run_of(filler, dot_space_pred()),
        run_of(digits, digit_pred()),
        is_space(sep),
    ensures
        voltage_section_end(s, i, label) == Some(
            (dec_value(digits), i + voltage_line(label, filler, digits, sep).len()),
        ),
{
    reveal_strlit("V\n");
    let vl = voltage_line(label, filler, digits, sep);
    let a = i + label.len();
    let b = a + filler.len();
    let c = b + digits.len();
    assert forall|k: int| 0 <= k < vl.len() implies s[i + k] == vl[k] by {
        assert(s.subrange(i, i + vl.len())[k] == s[i + k]);
    }
    assert forall|j: int| 0 <= j < label.len() implies s.subrange(i, i + label.len())[j]
        == label[j] by {
        assert(s[i + j] == vl[j]);
    }
    assert(s.subrange(i, i + label.len()) =~= label);
    assert forall|j: int| 0 <= j < filler.len() implies s.subrange(a, b)[j] == filler[j] by {
        assert(s[i + (label.len() + j)] == vl[label.len() + j]);
    }
    assert(s.subrange(a, b) =~= filler);
    assert forall|j: int| 0 <= j < digits.len() implies s.subrange(b, c)[j] == digits[j] by {
        assert(s[i + (label.len() + filler.len() + j)] == vl[label.len() + filler.len() + j]);
    }
    assert(s.subrange(b, c) =~= digits);
    assert(s[i + (label.len() + filler.len() + digits.len())] == vl[(label.len() + filler.len()
        + digits.len()) as int]);
    assert(s[c] == sep);
    assert forall|j: int| 0 <= j < lit_volts_eol().len() implies s.subrange(
        c + 1,
        c + 1 + lit_volts_eol().len(),
    )[j] == lit_volts_eol()[j] by {
        assert(s[i + (label.len() + filler.len() + digits.len() + 1 + j)] == vl[label.len()
            + filler.len() + digits.len() + 1 + j]);
    }
    assert(s.subrange(c + 1, c + 1 + lit_volts_eol().len()) =~= lit_volts_eol());
    lemma_label_value_run(s, i, label, filler, digits);
    assert(voltage_section_end(s, i, label) == Some((dec_value(digits), i + vl.len())));
}

proof fn lemma_battery_line_at(s: Seq<u8>, i: int, filler: Seq<u8>, digits: Seq<u8>)
    requires
        0 <= i,
        i + battery_line(filler, digits).len() <= s.len(),
        s.subrange(i, i + battery_line(filler, digits).len()) == battery_line(filler, digits),
        run_of(filler, dot_space_pred()),
        run_of(digits, digit_pred()),
    ensures
        battery_section_end(s, i) == Some(
            (dec_value(digits), i + battery_line(filler, digits).len()),
        ),
{
    reveal_strlit(" %\n");
    let bl = battery_line(filler, digits);
    let label = lit_battery();
    let a = i + label.len();
    let b = a + filler.len();
    let c = b + digits.len();
    assert forall|k: int| 0 <= k < bl.len() implies s[i + k] == bl[k] by {
        assert(s.subrange(i, i + bl.len())[k] == s[i + k]);
    }
    assert forall|j: int| 0 <= j < label.len() implies s.subrange(i, i + label.len())[j]
        == label[j] by {
        assert(s[i + j] == bl[j]);
    }
    assert(s.subrange(i, i + label.len()) =~= label);
    assert forall|j: int| 0 <= j < filler.len() implies s.subrange(a, b)[j] == filler[j] by {
        assert(s[i + (label.len() + j)] == bl[label.len() + j]);
    }
    assert(s.subrange(a, b) =~= filler);
    assert forall|j: int| 0 <= j < digits.len() implies s.subrange(b, c)[j] == digits[j] by {
        assert(s[i + (label.len() + filler.len() + j)] == bl[label.len() + filler.len() + j]);
    }
    assert(s.subrange(b, c) =~= digits);
    assert forall|j: int| 0 <= j < lit_percent_eol().len() implies s.subrange(
        c,
        c + lit_percent_eol().len(),
    )[j] == lit_percent_eol()[j] by {
        assert(s[i + (label.len() + filler.len() + digits.len() + j)] == bl[label.len()
            + filler.len() + digits.len() + j]);
    }
    assert(s.subrange(c, c + lit_percent_eol().len()) =~= lit_percent_eol());
    assert(s[c] == lit_percent_eol()[0]);
    lemma_label_value_run(s, i, label, filler, digits);
    assert(battery_section_end(s, i) == Some((dec_value(digits), i + bl.len())));
}

proof fn lemma_runtime_line_at(s: Seq<u8>, i: int, filler: Seq<u8>, digits: Seq<u8>, wildcard: u8)
    requires
        0 <= i,
        i + runtime_line(filler, digits, wildcard).len() <= s.len(),
        s.subrange(i, i + runtime_line(filler, digits, wildcard).len()) == runtime_line(
            filler,
            digits,
            wildcard,
        ),
        run_of(filler, dot_space_pred()),
        run_of(digits, digit_pred()),
        wildcard != 10,
    ensures
        runtime_section_end(s, i) == Some(
            (dec_value(digits), i + runtime_line(filler, digits, wildcard).len()),
        ),
{
    reveal_strlit(" min");
    reveal_strlit("\n");
    let rl = runtime_line(filler, digits, wildcard);
    let label = lit_runtime();
    let a = i + label.len();
    let b = a + filler.len();
    let c = b + digits.len();
    let m = lit_minutes().len();
    assert forall|k: int| 0 <= k < rl.len() implies s[i + k] == rl[k] by {
        assert(s.subrange(i, i + rl.len())[k] == s[i + k]);
    }
    assert forall|j: int| 0 <= j < label.len() implies s.subrange(i, i + label.len())[j]
        == label[j] by {
        assert(s[i + j] == rl[j]);
    }
    assert(s.subrange(i, i + label.len()) =~= label);
    assert forall|j: int| 0 <= j < filler.len() implies s.subrange(a, b)[j] == filler[j] by {
        assert(s[i + (label.len() + j)] == rl[label.len() + j]);
    }
    assert(s.subrange(a, b) =~= filler);
    assert forall|j: int| 0 <= j < digits.len() implies s.subrange(b, c)[j] == digits[j] by {
        assert(s[i + (label.len() + filler.len() + j)] == rl[label.len() + filler.len() + j]);
    }
    assert(s.subrange(b, c) =~= digits);
    assert forall|j: int| 0 <= j < m implies s.subrange(c, c + m)[j] == lit_minutes()[j] by {
        assert(s[i + (label.len() + filler.len() + digits.len() + j)] == rl[label.len()
            + filler.len() + digits.len() + j]);
    }
    assert(s.subrange(c, c + m) =~= lit_minutes());
    assert(s[i + (label.len() + filler.len() + digits.len() + m)] == rl[(label.len() + filler.len()
        + digits.len() + m) as int]);
    assert(s[c + m] == wildcard);
    assert forall|j: int| 0 <= j < lit_eol().len() implies s.subrange(
        c + m + 1,
        c + m + 1 + lit_eol().len(),
    )[j] == lit_eol()[j] by {
        assert(s[i + (label.len() + filler.len() + digits.len() + m + 1 + j)] == rl[label.len()
            + filler.len() + digits.len() + m + 1 + j]);
    }
    assert(s.subrange(c + m + 1, c + m + 1 + lit_eol().len()) =~= lit_eol());
    assert(s[c] == lit_minutes()[0]);
    lemma_label_value_run(s, i, label, filler, digits);
    assert(runtime_section_end(s, i) == Some((dec_value(digits), i + rl.len())));
}

proof fn lemma_load_line_at(s: Seq<u8>, i: int, filler: Seq<u8>, watt_digits: Seq<u8>, percent_digits: Seq<u8>)
    requires
        0 <= i,
        i + load_line(filler, watt_digits, percent_digits).len() <= s.len(),
        s.subrange(i, i + load_line(filler, watt_digits, percent_digits).len()) == load_line(
            filler,
            watt_digits,
            percent_digits,
        ),
        run_of(filler, dot_space_pred()),
        run_of(watt_digits, digit_pred()),
        run_of(percent_digits, digit_pred()),
        i + load_line(filler, watt_digits, percent_digits).len() == s.len() || !is_digit(
            s[i + load_line(filler, watt_digits, percent_digits).len()],
        ),
    ensures
        load_section_end(s, i) == Some((dec_value(watt_digits), dec_value(percent_digits))),
{
    reveal_strlit(" Watt(");
    let ll = load_line(filler, watt_digits, percent_digits);
    let label = lit_load();
    let a = i + label.len();
    let b = a + filler.len();
    let c = b + watt_digits.len();
    let w = lit_watt_open().len();
    let d = c + w;
    let e = d + percent_digits.len();
    assert forall|k: int| 0 <= k < ll.len() implies s[i + k] == ll[k] by {
        assert(s.subrange(i, i + ll.len())[k] == s[i + k]);
    }
    assert forall|j: int| 0 <= j < label.len() implies s.subrange(i, i + label.len())[j]
        == label[j] by {
        assert(s[i + j] == ll[j]);
    }
    assert(s.subrange(i, i + label.len()) =~= label);
    assert forall|j: int| 0 <= j < filler.len() implies s.subrange(a, b)[j] == filler[j] by {
        assert(s[i + (label.len() + j)] == ll[label.len() + j]);
    }
    assert(s.subrange(a, b) =~= filler);
    assert forall|j: int| 0 <= j < watt_digits.len() implies s.subrange(b, c)[j]
        == watt_digits[j] by {
        assert(s[i + (label.len() + filler.len() + j)] == ll[label.len() + filler.len() + j]);
    }
    assert(s.subrange(b, c) =~= watt_digits);
    assert forall|j: int| 0 <= j < w implies s.subrange(c, c + w)[j] == lit_watt_open()[j] by {
        assert(s[i + (label.len() + filler.len() + watt_digits.len() + j)] == ll[label.len()
            + filler.len() + watt_digits.len() + j]);
    }
    assert(s.subrange(c, c + w) =~= lit_watt_open());
    assert(s[c] == lit_watt_open()[0]);
    assert forall|j: int| 0 <= j < percent_digits.len() implies s.subrange(d, e)[j]
        == percent_digits[j] by {
        assert(s[i + (label.len() + filler.len() + watt_digits.len() + w + j)] == ll[label.len()
            + filler.len() + watt_digits.len() + w + j]);
    }
    assert(s.subrange(d, e) =~= percent_digits);
    lemma_label_value_run(s, i, label, filler, watt_digits);
    assert forall|k: int| d <= k < e implies digit_pred()(s[k]) by {
        assert(s[k] == s.subrange(d, e)[k - d]);
        assert(s[k] == percent_digits[k - d]);
    }
    if e < s.len() {
        assert(!digit_pred()(s[e]));
    }
    lemma_skip_while_run(s, d, e, digit_pred());
    assert(load_section_end(s, i) == Some(
        (dec_value(watt_digits), dec_value(percent_digits)),
    ));
}

/// Every status text in the expected layout parses to exactly the six
/// values written into it, whatever filler, whitespace and trailing text
/// surround them.
pub proof fn lemma_parse_layout(l: Layout)
    requires
        l.wf(),
    ensures
        pattern_match(l.text()) == Some(l.values()),
{
    reveal_strlit("Utility Voltage");
    reveal_strlit("Output Voltage");
    reveal_strlit("Battery Capacity");
    reveal_strlit("Remaining Runtime");
    reveal_strlit("Load");
    let s = l.text();
    let e1 = l.line1().len() as int;
    let f1 = e1 + l.gap1.len();
    let e2 = f1 + l.line2().len();
    let f2 = e2 + l.gap2.len();
    let e3 = f2 + l.line3().len();
    let f3 = e3 + l.gap3.len();
    let e4 = f3 + l.line4().len();
    let f4 = e4 + l.gap4.len();
    let e5 = f4 + l.line5().len();
    assert(s.len() == e5 + l.tail.len());
    assert(s.subrange(0, e1) =~= l.line1());
    assert(s.subrange(e1, f1) =~= l.gap1);
    assert(s.subrange(f1, e2) =~= l.line2());
    assert(s.subrange(e2, f2) =~= l.gap2);
    assert(s.subrange(f2, e3) =~= l.line3());
    assert(s.subrange(e3, f3) =~= l.gap3);
    assert(s.subrange(f3, e4) =~= l.line4());
    assert(s.subrange(e4, f4) =~= l.gap4);
    assert(s.subrange(f4, e5) =~= l.line5());
    if l.tail.len() > 0 {
        assert(s[e5] == l.tail[0]);
    }
    lemma_voltage_line_at(s, 0, lit_utility(), l.utility_filler, l.utility_digits, l.utility_sep);
    assert forall|k: int| e1 <= k < f1 implies space_pred()(s[k]) by {
        assert(s[k] == l.gap1[k - e1]);
    }
    assert(s[f1] == lit_output()[0]);
    assert(!space_pred()(s[f1]));
    lemma_skip_while_run(s, e1, f1, space_pred());
    lemma_voltage_line_at(s, f1, lit_output(), l.output_filler, l.output_digits, l.output_sep);
    assert forall|k: int| e2 <= k < f2 implies space_pred()(s[k]) by {
        assert(s[k] == l.gap2[k - e2]);
    }
    assert(s[f2] == lit_battery()[0]);
    assert(!space_pred()(s[f2]));
    lemma_skip_while_run(s, e2, f2, space_pred());
    lemma_battery_line_at(s, f2, l.battery_filler, l.battery_digits);
    assert forall|k: int| e3 <= k < f3 implies space_pred()(s[k]) by {
        assert(s[k] == l.gap3[k - e3]);
    }
    assert(s[f3] == lit_runtime()[0]);
    assert(!space_pred()(s[f3]));
    lemma_skip_while_run(s, e3, f3, space_pred());
    lemma_runtime_line_at(s, f3, l.runtime_filler, l.runtime_digits, l.wildcard);
    assert forall|k: int| e4 <= k < f4 implies space_pred()(s[k]) by {
        assert(s[k] == l.gap4[k - e4]);
    }
    assert(s[f4] == lit_load()[0]);
    assert(!space_pred()(s[f4]));
    lemma_skip_while_run(s, e4, f4, space_pred());
    lemma_load_line_at(s, f4, l.load_filler, l.watt_digits, l.percent_digits);
    assert(match_at(s, 0) == Some(l.values()));
    assert(scan_from(s, 0) == Some(l.values()));
}


/// The layout law at the record level: when the six values written into a
/// layout text all fit their fields, `parse` yields exactly that record.
pub proof fn lemma_parse_layout_record(l: Layout)
    requires
        l.wf(),
        dec_value(l.utility_digits) <= u32::MAX,
        dec_value(l.output_digits) <= u32::MAX,
        dec_value(l.battery_digits) <= u8::MAX,
        dec_value(l.runtime_digits) <= u32::MAX,
        dec_value(l.watt_digits) <= u32::MAX,
        dec_value(l.percent_digits) <= u8::MAX,
    ensures
        spec_parse(l.text()) == Ok::<StatusRecord, ParserError>(
            StatusRecord {
                utility_voltage: dec_value(l.utility_digits) as u32,
                output_voltage: dec_value(l.output_digits) as u32,
                battery_capacity: dec_value(l.battery_digits) as u8,
                remaining_runtime: dec_value(l.runtime_digits) as u32,
                load_watts: dec_value(l.watt_digits) as u32,
                load_percent: dec_value(l.percent_digits) as u8,
            },
        ),
{
    lemma_parse_layout(l);
}

/// And the overflow half: a value written with more digits than its field
/// can hold turns the whole parse into a conversion failure, never a
/// clamped or partial record.
pub proof fn lemma_parse_layout_overflow(l: Layout)
    requires
        l.wf(),
        dec_value(l.utility_digits) > u32::MAX || dec_value(l.output_digits) > u32::MAX
            || dec_value(l.battery_digits) > u8::MAX || dec_value(l.runtime_digits) > u32::MAX
            || dec_value(l.watt_digits) > u32::MAX || dec_value(l.percent_digits) > u8::MAX,
    ensures
        spec_parse(l.text()) == Err::<StatusRecord, ParserError>(
            ParserError::NumericConversionError,
        ),
{
    lemma_parse_layout(l);
}

} // verus!
