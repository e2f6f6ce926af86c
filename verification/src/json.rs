//! Serialization of a device diff into its persisted JSON audit shape.
//!
//! The shape is stable so that historical audit rows stay parseable: a JSON
//! object with the optional keys `deviceKeyInfo`, `deviceData`,
//! `deviceComponents` and `deviceAttachments`; each populated section uses an
//! `"operation"` discriminator with the values `add`, `edit`, `delete` and
//! `restore`, and camelCase field names. Absent optional fields are omitted,
//! never written as `null`.
//!
//! The serializer is verified against spec functions that define the format
//! character by character.

use vstd::prelude::*;
use vstd::string::StrSliceExecFns;
use vstd::string::StringExecFns;

use crate::diff::{
    DeviceAttachmentsAttachmentDiff, DeviceComponentsComponentDiff, DeviceDataColumnDiff,
    DeviceDiff, DeviceKeyInfoDiff,
};
use crate::id_gen::digit_str;

verus! {

// The format, character by character

/// The hexadecimal digit for a value below sixteen.
pub open spec fn spec_hex_digit(v: u32) -> char {
    if v < 10 {
        ((48 + v) as u8) as char
    } else {
        ((87 + v) as u8) as char
    }
}

/// How one character is written inside a JSON string literal.
pub open spec fn spec_escaped_char(c: char) -> Seq<char> {
    if c == '"' {
        seq!['\\', '"']
    } else if c == '\\' {
        seq!['\\', '\\']
    } else if c == '\n' {
        seq!['\\', 'n']
    } else if c == '\r' {
        seq!['\\', 'r']
    } else if c == '\t' {
        seq!['\\', 't']
    } else if (c as u32) < 32 {
        seq!['\\', 'u', '0', '0', spec_hex_digit((c as u32) / 16), spec_hex_digit((c as u32) % 16)]
    } else {
        seq![c]
    }
}

/// The escaped body of a JSON string literal.
pub open spec fn spec_json_escaped(s: Seq<char>) -> Seq<char>
    decreases s.len(),
{
    if s.len() == 0 {
        Seq::empty()
    } else {
        spec_json_escaped(s.drop_last()) + spec_escaped_char(s.last())
    }
}

/// A JSON string literal.
pub open spec fn spec_json_string(s: Seq<char>) -> Seq<char> {
    "\""@ + spec_json_escaped(s) + "\""@
}

/// The decimal digits of a natural number.
pub open spec fn spec_nat_decimal(n: nat) -> Seq<char>
    decreases n,
{
    if n < 10 {
        seq![((48 + n) as u8) as char]
    } else {
        spec_nat_decimal(n / 10) + seq![((48 + (n % 10)) as u8) as char]
    }
}

/// The decimal form of an integer, with a leading minus where negative.
pub open spec fn spec_int_decimal(n: int) -> Seq<char> {
    if n < 0 {
        seq!['-'] + spec_nat_decimal((-n) as nat)
    } else {
        spec_nat_decimal(n as nat)
    }
}

/// The JSON of a key-information diff.
pub open spec fn spec_key_info_diff_json(d: DeviceKeyInfoDiff) -> Seq<char> {
    match d {
        DeviceKeyInfoDiff::Add(data) => "{\"operation\":\"add\""@ + spec_ki_fields_json(
            data.location_id,
        ) + "}"@,
        DeviceKeyInfoDiff::Edit(data) => "{\"operation\":\"edit\""@ + spec_ki_fields_json(
            data.location_id,
        ) + "}"@,
        DeviceKeyInfoDiff::Delete => "{\"operation\":\"delete\"}"@,
        DeviceKeyInfoDiff::Restore => "{\"operation\":\"restore\"}"@,
    }
}

/// The optional location field of a key-information diff.
pub open spec fn spec_ki_fields_json(location_id: Option<i32>) -> Seq<char> {
    match location_id {
        Some(n) => ",\"locationId\":"@ + spec_int_decimal(n as int),
        None => Seq::empty(),
    }
}

/// The JSON of one column value change.
pub open spec fn spec_col_diff_json(d: DeviceDataColumnDiff) -> Seq<char> {
    "{\"columnDefinitionId\":"@ + spec_int_decimal(d.column_definition_id as int) + (match d
        .data_value {
        Some(v) => ",\"dataValue\":"@ + spec_json_string(v@),
        None => Seq::empty(),
    }) + "}"@
}

/// The JSON of one component change.
pub open spec fn spec_comp_diff_json(d: DeviceComponentsComponentDiff) -> Seq<char> {
    match d {
        DeviceComponentsComponentDiff::Add(data) => "{\"operation\":\"add\",\"componentId\":"@
            + spec_json_string(data.component_id@) + (match data.component_type {
            Some(t) => ",\"componentType\":"@ + spec_json_string(t@),
            None => Seq::empty(),
        }) + "}"@,
        DeviceComponentsComponentDiff::Edit(data) => "{\"operation\":\"edit\",\"componentId\":"@
            + spec_json_string(data.component_id@) + (match data.component_type {
            Some(t) => ",\"componentType\":"@ + spec_json_string(t@),
            None => Seq::empty(),
        }) + "}"@,
        DeviceComponentsComponentDiff::Delete { component_id } => {
            "{\"operation\":\"delete\",\"componentId\":"@ + spec_json_string(component_id@) + "}"@
        },
        DeviceComponentsComponentDiff::Restore { component_id } => {
            "{\"operation\":\"restore\",\"componentId\":"@ + spec_json_string(component_id@) + "}"@
        },
    }
}

/// The JSON of one attachment change.
pub open spec fn spec_att_diff_json(d: DeviceAttachmentsAttachmentDiff) -> Seq<char> {
    match d {
        DeviceAttachmentsAttachmentDiff::Add(data) => "{\"operation\":\"add\",\"attachmentId\":"@
            + spec_json_string(data.attachment_id@) + (match data.description {
            Some(t) => ",\"description\":"@ + spec_json_string(t@),
            None => Seq::empty(),
        }) + (match data.file_name {
            Some(t) => ",\"fileName\":"@ + spec_json_string(t@),
            None => Seq::empty(),
        }) + "}"@,
        DeviceAttachmentsAttachmentDiff::Edit(data) => "{\"operation\":\"edit\",\"attachmentId\":"@
            + spec_json_string(data.attachment_id@) + (match data.description {
            Some(t) => ",\"description\":"@ + spec_json_string(t@),
            None => Seq::empty(),
        }) + (match data.file_name {
            Some(t) => ",\"fileName\":"@ + spec_json_string(t@),
            None => Seq::empty(),
        }) + "}"@,
        DeviceAttachmentsAttachmentDiff::Delete { attachment_id } => {
            "{\"operation\":\"delete\",\"attachmentId\":"@ + spec_json_string(attachment_id@)
                + "}"@
        },
        DeviceAttachmentsAttachmentDiff::Restore { attachment_id } => {
            "{\"operation\":\"restore\",\"attachmentId\":"@ + spec_json_string(attachment_id@)
                + "}"@
        },
    }
}

/// The comma-separated items of the column value array.
pub open spec fn spec_col_items_json(l: Seq<DeviceDataColumnDiff>) -> Seq<char>
    decreases l.len(),
{
    if l.len() == 0 {
        Seq::empty()
    } else if l.len() == 1 {
        spec_col_diff_json(l[0])
    } else {
        spec_col_items_json(l.drop_last()) + ","@ + spec_col_diff_json(l.last())
    }
}

/// The comma-separated items of the component array.
pub open spec fn spec_comp_items_json(l: Seq<DeviceComponentsComponentDiff>) -> Seq<char>
    decreases l.len(),
{
    if l.len() == 0 {
        Seq::empty()
    } else if l.len() == 1 {
        spec_comp_diff_json(l[0])
    } else {
        spec_comp_items_json(l.drop_last()) + ","@ + spec_comp_diff_json(l.last())
    }
}

/// The comma-separated items of the attachment array.
pub open spec fn spec_att_items_json(l: Seq<DeviceAttachmentsAttachmentDiff>) -> Seq<char>
    decreases l.len(),
{
    if l.len() == 0 {
        Seq::empty()
    } else if l.len() == 1 {
        spec_att_diff_json(l[0])
    } else {
        spec_att_items_json(l.drop_last()) + ","@ + spec_att_diff_json(l.last())
    }
}

/// The present top-level sections of a diff, each as one `"key":value` piece,
/// in their fixed order.
pub open spec fn spec_diff_fields(d: DeviceDiff) -> Seq<Seq<char>> {
    (match d.device_key_info {
        Some(ki) => seq!["\"deviceKeyInfo\":"@ + spec_key_info_diff_json(ki)],
        None => Seq::empty(),
    }) + (match d.device_data {
        Some(dd) => seq!["\"deviceData\":["@ + spec_col_items_json(dd.0@) + "]"@],
        None => Seq::empty(),
    }) + (match d.device_components {
        Some(dc) => seq!["\"deviceComponents\":["@ + spec_comp_items_json(dc.0@) + "]"@],
        None => Seq::empty(),
    }) + (match d.device_attachments {
        Some(da) => seq!["\"deviceAttachments\":["@ + spec_att_items_json(da.0@) + "]"@],
        None => Seq::empty(),
    })
}

/// Fields joined with commas.
pub open spec fn spec_join_comma(fields: Seq<Seq<char>>) -> Seq<char>
    decreases fields.len(),
{
    if fields.len() == 0 {
        Seq::empty()
    } else if fields.len() == 1 {
        fields[0]
    } else {
        spec_join_comma(fields.drop_last()) + ","@ + fields.last()
    }
}

/// The complete JSON of a device diff.
pub open spec fn spec_device_diff_json(d: DeviceDiff) -> Seq<char> {
    "{"@ + spec_join_comma(spec_diff_fields(d)) + "}"@
}

// Executable serialization

/// The one-character string for a hexadecimal digit value.
fn hex_digit_str(v: u8) -> (r: &'static str)
    requires
        v < 16,
    ensures
        r@ == seq![spec_hex_digit(v as u32)],
{
    let s: &'static str = match v {
        0 => "0",
        1 => "1",
        2 => "2",
        3 => "3",
        4 => "4",
        5 => "5",
        6 => "6",
        7 => "7",
        8 => "8",
        9 => "9",
        10 => "a",
        11 => "b",
        12 => "c",
        13 => "d",
        14 => "e",
        _ => "f",
    };
    proof {
        reveal_strlit("0");
        reveal_strlit("1");
        reveal_strlit("2");
        reveal_strlit("3");
        reveal_strlit("4");
        reveal_strlit("5");
        reveal_strlit("6");
        reveal_strlit("7");
        reveal_strlit("8");
        reveal_strlit("9");
        reveal_strlit("a");
        reveal_strlit("b");
        reveal_strlit("c");
        reveal_strlit("d");
        reveal_strlit("e");
        reveal_strlit("f");
    }
    s
}

/// Appends the escaped body of a JSON string literal.
fn append_json_escaped(out: &mut String, s: &str)
    ensures
        final(out)@ == old(out)@ + spec_json_escaped(s@),
{
    let n = s.unicode_len();
    let mut i: usize = 0;
    while i < n
        invariant
            i <= n,
            n as int == s@.len(),
            out@ == old(out)@ + spec_json_escaped(s@.take(i as int)),
        decreases n - i,
    {
        let c = s.get_char(i);
        let code = c as u32;
        if c == '"' {
            out.append("\\\"");
            proof {
                reveal_strlit("\\\"");
                assert("\\\""@ =~= spec_escaped_char(c));
            }
        } else if c == '\\' {
            out.append("\\\\");
            proof {
                reveal_strlit("\\\\");
                assert("\\\\"@ =~= spec_escaped_char(c));
            }
        } else if c == '\n' {
            out.append("\\n");
            proof {
                reveal_strlit("\\n");
                assert("\\n"@ =~= spec_escaped_char(c));
            }
        } else if c == '\r' {
            out.append("\\r");
            proof {
                reveal_strlit("\\r");
                assert("\\r"@ =~= spec_escaped_char(c));
            }
        } else if c == '\t' {
            out.append("\\t");
            proof {
                reveal_strlit("\\t");
                assert("\\t"@ =~= spec_escaped_char(c));
            }
        } else if code < 32 {
            let ghost before = out@;
            out.append("\\u00");
            out.append(hex_digit_str((code / 16) as u8));
            out.append(hex_digit_str((code % 16) as u8));
            proof {
                reveal_strlit("\\u00");
                assert(out@ =~= before + spec_escaped_char(c));
            }
        } else {
            let piece = s.substring_char(i, i + 1);
            out.append(piece);
            proof {
                assert(piece@ =~= spec_escaped_char(c));
            }
        }
        proof {
            assert(s@.take(i + 1).drop_last() =~= s@.take(i as int));
            assert(s@.take(i + 1).last() == s@[i as int]);
        }
        i += 1;
    }
    proof {
        assert(s@.take(s@.len() as int) =~= s@);
    }
}

/// Appends a JSON string literal.
fn append_json_string(out: &mut String, s: &str)
    ensures
        final(out)@ == old(out)@ + spec_json_string(s@),
{
    out.append("\"");
    append_json_escaped(out, s);
    out.append("\"");
}

/// Appends the decimal digits of a 64-bit natural number.
fn append_u64_decimal(out: &mut String, n: u64)
    ensures
        final(out)@ == old(out)@ + spec_nat_decimal(n as nat),
    decreases n,
{
    if n < 10 {
        out.append(digit_str(48 + (n as u8)));
    } else {
        append_u64_decimal(out, n / 10);
        out.append(digit_str(48 + ((n % 10) as u8)));
    }
}

/// Appends the decimal form of a 32-bit integer.
fn append_i32_decimal(out: &mut String, n: i32)
    ensures
        final(out)@ == old(out)@ + spec_int_decimal(n as int),
{
    if n < 0 {
        out.append("-");
        let magnitude = -(n as i64);
        append_u64_decimal(out, magnitude as u64);
        proof {
            reveal_strlit("-");
            assert("-"@ =~= seq!['-']);
            assert(out@ =~= old(out)@ + spec_int_decimal(n as int));
        }
    } else {
        append_u64_decimal(out, n as u64);
    }
}

/// Appends the JSON of a key-information diff.
fn append_key_info_diff(out: &mut String, d: &DeviceKeyInfoDiff)
    ensures
        final(out)@ == old(out)@ + spec_key_info_diff_json(*d),
{
    match d {
        DeviceKeyInfoDiff::Add(data) => {
            out.append("{\"operation\":\"add\"");
            if let Some(n) = data.location_id {
                out.append(",\"locationId\":");
                append_i32_decimal(out, n);
            }
            out.append("}");
        },
        DeviceKeyInfoDiff::Edit(data) => {
            out.append("{\"operation\":\"edit\"");
            if let Some(n) = data.location_id {
                out.append(",\"locationId\":");
                append_i32_decimal(out, n);
            }
            out.append("}");
        },
        DeviceKeyInfoDiff::Delete => {
            out.append("{\"operation\":\"delete\"}");
        },
        DeviceKeyInfoDiff::Restore => {
            out.append("{\"operation\":\"restore\"}");
        },
    }
}

/// Appends the JSON of one column value change.
fn append_col_diff(out: &mut String, d: &DeviceDataColumnDiff)
    ensures
        final(out)@ == old(out)@ + spec_col_diff_json(*d),
{
    out.append("{\"columnDefinitionId\":");
    append_i32_decimal(out, d.column_definition_id);
    if let Some(v) = &d.data_value {
        out.append(",\"dataValue\":");
        append_json_string(out, v.as_str());
    }
    out.append("}");
}

/// Appends the JSON of one component change.
fn append_comp_diff(out: &mut String, d: &DeviceComponentsComponentDiff)
    ensures
        final(out)@ == old(out)@ + spec_comp_diff_json(*d),
{
    match d {
        DeviceComponentsComponentDiff::Add(data) => {
            out.append("{\"operation\":\"add\",\"componentId\":");
            append_json_string(out, data.component_id.as_str());
            if let Some(t) = &data.component_type {
                out.append(",\"componentType\":");
                append_json_string(out, t.as_str());
            }
            out.append("}");
        },
        DeviceComponentsComponentDiff::Edit(data) => {
            out.append("{\"operation\":\"edit\",\"componentId\":");
            append_json_string(out, data.component_id.as_str());
            if let Some(t) = &data.component_type {
                out.append(",\"componentType\":");
                append_json_string(out, t.as_str());
            }
            out.append("}");
        },
        DeviceComponentsComponentDiff::Delete { component_id } => {
            out.append("{\"operation\":\"delete\",\"componentId\":");
            append_json_string(out, component_id.as_str());
            out.append("}");
        },
        DeviceComponentsComponentDiff::Restore { component_id } => {
            out.append("{\"operation\":\"restore\",\"componentId\":");
            append_json_string(out, component_id.as_str());
            out.append("}");
        },
    }
}

/// Appends the JSON of one attachment change.
fn append_att_diff(out: &mut String, d: &DeviceAttachmentsAttachmentDiff)
    ensures
        final(out)@ == old(out)@ + spec_att_diff_json(*d),
{
    match d {
        DeviceAttachmentsAttachmentDiff::Add(data) => {
            out.append("{\"operation\":\"add\",\"attachmentId\":");
            append_json_string(out, data.attachment_id.as_str());
            if let Some(t) = &data.description {
                out.append(",\"description\":");
                append_json_string(out, t.as_str());
            }
            if let Some(t) = &data.file_name {
                out.append(",\"fileName\":");
                append_json_string(out, t.as_str());
            }
            out.append("}");
        },
        DeviceAttachmentsAttachmentDiff::Edit(data) => {
            out.append("{\"operation\":\"edit\",\"attachmentId\":");
            append_json_string(out, data.attachment_id.as_str());
            if let Some(t) = &data.description {
                out.append(",\"description\":");
                append_json_string(out, t.as_str());
            }
            if let Some(t) = &data.file_name {
                out.append(",\"fileName\":");
                append_json_string(out, t.as_str());
            }
            out.append("}");
        },
        DeviceAttachmentsAttachmentDiff::Delete { attachment_id } => {
            out.append("{\"operation\":\"delete\",\"attachmentId\":");
            append_json_string(out, attachment_id.as_str());
            out.append("}");
        },
        DeviceAttachmentsAttachmentDiff::Restore { attachment_id } => {
            out.append("{\"operation\":\"restore\",\"attachmentId\":");
            append_json_string(out, attachment_id.as_str());
            out.append("}");
        },
    }
}


/// Appends the comma-separated items of the column value array.
fn append_col_items(out: &mut String, l: &Vec<DeviceDataColumnDiff>)
    ensures
        final(out)@ == old(out)@ + spec_col_items_json(l@),
{
    let mut i: usize = 0;
    while i < l.len()
        invariant
            i <= l@.len(),
            out@ == old(out)@ + spec_col_items_json(l@.take(i as int)),
        decreases l@.len() - i,
    {
        if i > 0 {
            out.append(",");
        }
        append_col_diff(out, &l[i]);
        proof {
            assert(l@.take(i + 1).drop_last() =~= l@.take(i as int));
            assert(l@.take(i + 1).last() == l@[i as int]);
        }
        i += 1;
    }
    proof {
        assert(l@.take(l@.len() as int) =~= l@);
    }
}

/// Appends the comma-separated items of the component array.
fn append_comp_items(out: &mut String, l: &Vec<DeviceComponentsComponentDiff>)
    ensures
        final(out)@ == old(out)@ + spec_comp_items_json(l@),
{
    let mut i: usize = 0;
    while i < l.len()
        invariant
            i <= l@.len(),
            out@ == old(out)@ + spec_comp_items_json(l@.take(i as int)),
        decreases l@.len() - i,
    {
        if i > 0 {
            out.append(",");
        }
        append_comp_diff(out, &l[i]);
        proof {
            assert(l@.take(i + 1).drop_last() =~= l@.take(i as int));
            assert(l@.take(i + 1).last() == l@[i as int]);
        }
        i += 1;
    }
    proof {
        assert(l@.take(l@.len() as int) =~= l@);
    }
}

/// Appends the comma-separated items of the attachment array.
fn append_att_items(out: &mut String, l: &Vec<DeviceAttachmentsAttachmentDiff>)
    ensures
        final(out)@ == old(out)@ + spec_att_items_json(l@),
{
    let mut i: usize = 0;
    while i < l.len()
        invariant
            i <= l@.len(),
            out@ == old(out)@ + spec_att_items_json(l@.take(i as int)),
        decreases l@.len() - i,
    {
        if i > 0 {
            out.append(",");
        }
        append_att_diff(out, &l[i]);
        proof {
            assert(l@.take(i + 1).drop_last() =~= l@.take(i as int));
            assert(l@.take(i + 1).last() == l@[i as int]);
        }
        i += 1;
    }
    proof {
        assert(l@.take(l@.len() as int) =~= l@);
    }
}

/// Serializes a device diff into its persisted JSON audit shape.
#[verifier::rlimit(100)]
#[verifier::spinoff_prover]
pub fn diff_to_json(d: &DeviceDiff) -> (r: String)
    ensures
        r@ == spec_device_diff_json(*d),
{
    let ghost fields = spec_diff_fields(*d);
    let mut out = String::new();
    out.append("{");
    let mut first: bool = true;
    let ghost mut done: int = 0;

    if let Some(ki) = &d.device_key_info {
        out.append("\"deviceKeyInfo\":");
        append_key_info_diff(&mut out, ki);
        proof {
            done = 1;
            assert(fields.take(1).drop_last() =~= fields.take(0));
            assert(out@ =~= "{"@ + spec_join_comma(fields.take(done)));
        }
        first = false;
    }

    if let Some(dd) = &d.device_data {
        if !first {
            out.append(",");
        }
        out.append("\"deviceData\":[");
        append_col_items(&mut out, &dd.0);
        out.append("]");
        proof {
            assert(fields.take(done + 1).drop_last() =~= fields.take(done));
            assert(out@ =~= "{"@ + spec_join_comma(fields.take(done + 1)));
            done = done + 1;
        }
        first = false;
    }

    if let Some(dc) = &d.device_components {
        if !first {
            out.append(",");
        }
        out.append("\"deviceComponents\":[");
        append_comp_items(&mut out, &dc.0);
        out.append("]");
        proof {
            assert(fields.take(done + 1).drop_last() =~= fields.take(done));
            assert(out@ =~= "{"@ + spec_join_comma(fields.take(done + 1)));
            done = done + 1;
        }
        first = false;
    }

    if let Some(da) = &d.device_attachments {
        if !first {
            out.append(",");
        }
        out.append("\"deviceAttachments\":[");
        append_att_items(&mut out, &da.0);
        out.append("]");
        proof {
            assert(fields.take(done + 1).drop_last() =~= fields.take(done));
            assert(out@ =~= "{"@ + spec_join_comma(fields.take(done + 1)));
            done = done + 1;
        }
        first = false;
    }

    out.append("}");
    proof {
        assert(fields.take(done) =~= fields);
        assert(out@ =~= spec_device_diff_json(*d));
    }
    out
}

} // verus!
