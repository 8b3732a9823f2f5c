use vstd::prelude::*;

verus! {

use vstd::utf8::is_ascii_chars;
use vstd::utf8::is_ascii_chars_encode_utf8;
use crate::digits::dec_digits;
use crate::digits::push_decimal;
use crate::record::StatusRecord;
use crate::scan::ascii_seq;

/// One metric's block: a `# HELP` comment, a `# TYPE` comment naming the
/// gauge kind, and one sample line, each ended by a line feed.
pub open spec fn gauge_block(name: Seq<char>, help: Seq<char>, value: nat) -> Seq<u8> {
    ascii_seq("# HELP "@) + ascii_seq(name) + ascii_seq(" "@) + ascii_seq(help) + ascii_seq("\n"@)
        + ascii_seq("# TYPE "@) + ascii_seq(name) + ascii_seq(" gauge\n"@) + ascii_seq(name)
        + ascii_seq(" "@) + dec_digits(value) + ascii_seq("\n"@)
}

/// The whole metrics document: six gauge blocks, one per field of the
/// record, in the fixed field order.
pub open spec fn spec_render(r: StatusRecord) -> Seq<u8> {
    gauge_block("ups_input_voltage"@, "Utility voltage"@, r.utility_voltage as nat) + gauge_block(
        "ups_output_voltage"@,
        "Output voltage"@,
        r.output_voltage as nat,
    ) + gauge_block("ups_battery_capacity"@, "Battery capacity"@, r.battery_capacity as nat)
        + gauge_block(
        "ups_remaining_runtime"@,
        "Remaining runtime"@,
        r.remaining_runtime as nat,
    ) + gauge_block("ups_load_watts"@, "Load in watts"@, r.load_watts as nat) + gauge_block(
        "ups_load_percent"@,
        "Load percentage"@,
        r.load_percent as nat,
    )
}

/// Appends the bytes of an ASCII string slice to the document.
fn push_ascii(out: &mut Vec<u8>, s: &str)
    requires
        is_ascii_chars(s@),
    ensures
        final(out)@ == old(out)@ + ascii_seq(s@),
{
    proof {
        is_ascii_chars_encode_utf8(s@);
    }
    let b = s.as_bytes();
    out.extend_from_slice(b);
    proof {
        assert(out@ =~= old(out)@ + ascii_seq(s@));
    }
}

/// Appends one metric's three lines to the document.
fn push_gauge_block(out: &mut Vec<u8>, name: &str, help: &str, value: u32)
    requires
        is_ascii_chars(name@),
        is_ascii_chars(help@),
    ensures
        final(out)@ == old(out)@ + gauge_block(name@, help@, value as nat),
{
    proof {
        reveal_strlit("# HELP ");
        reveal_strlit(" ");
        reveal_strlit("\n");
        reveal_strlit("# TYPE ");
        reveal_strlit(" gauge\n");
    }
    push_ascii(out, "# HELP ");
    push_ascii(out, name);
    push_ascii(out, " ");
    push_ascii(out, help);
    push_ascii(out, "\n");
    push_ascii(out, "# TYPE ");
    push_ascii(out, name);
    push_ascii(out, " gauge\n");
    push_ascii(out, name);
    push_ascii(out, " ");
    push_decimal(out, value);
    push_ascii(out, "\n");
    proof {
        assert(out@ =~= old(out)@ + gauge_block(name@, help@, value as nat));
    }
}

/// Renders a record as the Prometheus exposition-format document: eighteen
/// lines, three per field, in the fixed field order. Total over every
/// record; two equal records render to byte-identical documents.
pub fn render(record: &StatusRecord) -> (out: Vec<u8>)
    ensures
        out@ == spec_render(*record),
{
    proof {
        reveal_strlit("ups_input_voltage");
        reveal_strlit("Utility voltage");
        reveal_strlit("ups_output_voltage");
        reveal_strlit("Output voltage");
        reveal_strlit("ups_battery_capacity");
        reveal_strlit("Battery capacity");
        reveal_strlit("ups_remaining_runtime");
        reveal_strlit("Remaining runtime");
        reveal_strlit("ups_load_watts");
        reveal_strlit("Load in watts");
        reveal_strlit("ups_load_percent");
        reveal_strlit("Load percentage");
    }
    let mut out: Vec<u8> = Vec::new();
    push_gauge_block(&mut out, "ups_input_voltage", "Utility voltage", record.utility_voltage);
    push_gauge_block(&mut out, "ups_output_voltage", "Output voltage", record.output_voltage);
    push_gauge_block(
        &mut out,
        "ups_battery_capacity",
        "Battery capacity",
        record.battery_capacity as u32,
    );
    push_gauge_block(
        &mut out,
        "ups_remaining_runtime",
        "Remaining runtime",
        record.remaining_runtime,
    );
    push_gauge_block(&mut out, "ups_load_watts", "Load in watts", record.load_watts);
    push_gauge_block(&mut out, "ups_load_percent", "Load percentage", record.load_percent as u32);
    proof {
        assert(out@ =~= spec_render(*record));
    }
    out
}

// The line structure of the document.

/// Number of occurrences of the byte `b` in `s`.
pub open spec fn count_byte(s: Seq<u8>, b: u8) -> nat
    decreases s.len(),
{
    if s.len() == 0 {
        0
    } else {
        count_byte(s.drop_last(), b) + (if s.last() == b {
            1nat
        } else {
            0nat
        })
    }
}

pub proof fn lemma_count_byte_concat(x: Seq<u8>, y: Seq<u8>, b: u8)
    ensures
        count_byte(x + y, b) == count_byte(x, b) + count_byte(y, b),
    decreases y.len(),
{
    if y.len() == 0 {
        assert(x + y =~= x);
    } else {
        assert((x + y).drop_last() =~= x + y.drop_last());
        lemma_count_byte_concat(x, y.drop_last(), b);
    }
}

pub proof fn lemma_count_byte_absent(s: Seq<u8>, b: u8)
    requires
        forall|i: int| 0 <= i < s.len() ==> s[i] != b,
    ensures
        count_byte(s, b) == 0,
    decreases s.len(),
{
    if s.len() > 0 {
        lemma_count_byte_absent(s.drop_last(), b);
    }
}

pub proof fn lemma_count_byte_last_only(s: Seq<u8>, b: u8)
    requires
        s.len() > 0,
        s.last() == b,
        forall|i: int| 0 <= i < s.len() - 1 ==> s[i] != b,
    ensures
        count_byte(s, b) == 1,
{
    lemma_count_byte_absent(s.drop_last(), b);
}

/// Each gauge block is exactly three line-feed-terminated lines.
pub proof fn lemma_gauge_block_lines(name: Seq<char>, help: Seq<char>, value: nat)
    requires
        vstd::utf8::is_ascii_chars(name),
        vstd::utf8::is_ascii_chars(help),
        forall|i: int| 0 <= i < name.len() ==> name[i] != '\n',
        forall|i: int| 0 <= i < help.len() ==> help[i] != '\n',
    ensures
        gauge_block(name, help, value).len() > 0,
        gauge_block(name, help, value).last() == 10,
        count_byte(gauge_block(name, help, value), 10) == 3,
{
    reveal_strlit("# HELP ");
    reveal_strlit(" ");
    reveal_strlit("\n");
    reveal_strlit("# TYPE ");
    reveal_strlit(" gauge\n");
    let n = ascii_seq(name);
    let h = ascii_seq(help);
    let d = dec_digits(value);
    let help_pre = ascii_seq("# HELP "@);
    let sp = ascii_seq(" "@);
    let nl = ascii_seq("\n"@);
    let type_pre = ascii_seq("# TYPE "@);
    let gauge_nl = ascii_seq(" gauge\n"@);
    crate::digits::lemma_dec_digits_are_digits(value);
    lemma_count_byte_absent(help_pre, 10);
    lemma_count_byte_absent(n, 10);
    lemma_count_byte_absent(sp, 10);
    lemma_count_byte_absent(h, 10);
    lemma_count_byte_last_only(nl, 10);
    lemma_count_byte_absent(type_pre, 10);
    lemma_count_byte_last_only(gauge_nl, 10);
    lemma_count_byte_absent(d, 10);
    let t1 = help_pre + n;
    let t2 = t1 + sp;
    let t3 = t2 + h;
    let t4 = t3 + nl;
    let t5 = t4 + type_pre;
    let t6 = t5 + n;
    let t7 = t6 + gauge_nl;
    let t8 = t7 + n;
    let t9 = t8 + sp;
    let t10 = t9 + d;
    lemma_count_byte_concat(help_pre, n, 10);
    lemma_count_byte_concat(t1, sp, 10);
    lemma_count_byte_concat(t2, h, 10);
    lemma_count_byte_concat(t3, nl, 10);
    lemma_count_byte_concat(t4, type_pre, 10);
    lemma_count_byte_concat(t5, n, 10);
    lemma_count_byte_concat(t6, gauge_nl, 10);
    lemma_count_byte_concat(t7, n, 10);
    lemma_count_byte_concat(t8, sp, 10);
    lemma_count_byte_concat(t9, d, 10);
    lemma_count_byte_concat(t10, nl, 10);
}

/// The rendered document is exactly eighteen line-feed-terminated lines,
/// three per field; the blocks stand in the fixed field order in which
/// `spec_render` lists them.
pub proof fn lemma_render_line_count(r: StatusRecord)
    ensures
        spec_render(r).len() > 0,
        spec_render(r).last() == 10,
        count_byte(spec_render(r), 10) == 18,
{
    reveal_strlit("ups_input_voltage");
    reveal_strlit("Utility voltage");
    reveal_strlit("ups_output_voltage");
    reveal_strlit("Output voltage");
    reveal_strlit("ups_battery_capacity");
    reveal_strlit("Battery capacity");
    reveal_strlit("ups_remaining_runtime");
    reveal_strlit("Remaining runtime");
    reveal_strlit("ups_load_watts");
    reveal_strlit("Load in watts");
    reveal_strlit("ups_load_percent");
    reveal_strlit("Load percentage");
    let b1 = gauge_block("ups_input_voltage"@, "Utility voltage"@, r.utility_voltage as nat);
    let b2 = gauge_block("ups_output_voltage"@, "Output voltage"@, r.output_voltage as nat);
    let b3 = gauge_block("ups_battery_capacity"@, "Battery capacity"@, r.battery_capacity as nat);
    let b4 = gauge_block("ups_remaining_runtime"@, "Remaining runtime"@, r.remaining_runtime as nat);
    let b5 = gauge_block("ups_load_watts"@, "Load in watts"@, r.load_watts as nat);
    let b6 = gauge_block("ups_load_percent"@, "Load percentage"@, r.load_percent as nat);
    lemma_gauge_block_lines("ups_input_voltage"@, "Utility voltage"@, r.utility_voltage as nat);
    lemma_gauge_block_lines("ups_output_voltage"@, "Output voltage"@, r.output_voltage as nat);
    lemma_gauge_block_lines("ups_battery_capacity"@, "Battery capacity"@, r.battery_capacity as nat);
    lemma_gauge_block_lines(
        "ups_remaining_runtime"@,
        "Remaining runtime"@,
        r.remaining_runtime as nat,
    );
    lemma_gauge_block_lines("ups_load_watts"@, "Load in watts"@, r.load_watts as nat);
    lemma_gauge_block_lines("ups_load_percent"@, "Load percentage"@, r.load_percent as nat);
    lemma_count_byte_concat(b1, b2, 10);
    lemma_count_byte_concat(b1 + b2, b3, 10);
    lemma_count_byte_concat(b1 + b2 + b3, b4, 10);
    lemma_count_byte_concat(b1 + b2 + b3 + b4, b5, 10);
    lemma_count_byte_concat(b1 + b2 + b3 + b4 + b5, b6, 10);
}

} // verus!
