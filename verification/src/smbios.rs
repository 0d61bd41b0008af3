//! Raw SMBIOS table parsing.
//!
//! From the bytes `GetSystemFirmwareTable('RSMB', 0, ..)` returns, extracts the
//! manufacturer and product strings of the Type 1 (System Information) and
//! Type 2 (Baseboard) structures, with their offsets, for same-length
//! replacement by the trampoline.

use vstd::prelude::*;
use crate::infra::bytes::copy_range;
use crate::infra::text::{chars_of, lossy_utf8, str_eq, utf8_lossy};

verus! {

/// The raw SMBIOS structure table.
pub struct SmbiosTable {
    raw: Vec<u8>,
}

impl View for SmbiosTable {
    type V = Seq<u8>;

    closed spec fn view(&self) -> Seq<u8> {
        self.raw@
    }
}

/// Which string a field is.
#[derive(Debug, Clone, Copy, PartialEq, Eq)]
pub enum SmbiosFieldRole {
    Type1Manufacturer,
    Type1ProductName,
    Type2Manufacturer,
    Type2Product,
}

/// One string of the table: its role, the offset of its first byte in the
/// raw table, and its text.
#[derive(Debug, Clone)]
pub struct SmbiosField {
    pub role: SmbiosFieldRole,
    pub offset: usize,
    pub value: String,
}

/// A field as the table defines it: role, offset, and the raw bytes of the string.
pub struct FieldModel {
    pub role: SmbiosFieldRole,
    pub offset: int,
    pub bytes: Seq<u8>,
}

/// Why no field was extracted.
#[derive(Debug, Clone, Copy, PartialEq, Eq)]
pub enum SmbiosError {
    /// The table has no Type 1 or Type 2 string to replace.
    NoSystemOrBaseboardStrings,
}

impl SmbiosError {
    /// The text shown for the error.
    pub fn message(self) -> (r: &'static str)
        ensures
            r@ == "未在 SMBIOS 表中找到 Type 1 或 Type 2 结构"@,
    {
        "未在 SMBIOS 表中找到 Type 1 或 Type 2 结构"
    }
}

/// The end of the string area that starts at `strings`: just past the first
/// double NUL, or the end of the table when there is none.
pub open spec fn spec_strings_end(raw: Seq<u8>, strings: int) -> int
    decreases raw.len() - strings,
{
    if strings < 0 || strings + 1 >= raw.len() {
        raw.len() as int
    } else if raw[strings] == 0 && raw[strings + 1] == 0 {
        strings + 2
    } else {
        spec_strings_end(raw, strings + 1)
    }
}

/// The `left`-th NUL-terminated string (1-based) of `raw[i..end]`, counting
/// from a segment that started at `seg_start`: its start and end.
pub open spec fn spec_nth_string(raw: Seq<u8>, i: int, end: int, left: int, seg_start: int) -> Option<(int, int)>
    decreases end - i,
{
    if i >= end || left < 1 {
        None
    } else if raw[i] == 0 {
        if left == 1 {
            Some((seg_start, i))
        } else {
            spec_nth_string(raw, i + 1, end, left - 1, i + 1)
        }
    } else {
        spec_nth_string(raw, i + 1, end, left, seg_start)
    }
}

/// The field `index` names in a string area, if present and non-empty.
pub open spec fn spec_field(raw: Seq<u8>, index: int, strings: int, strings_end: int, role: SmbiosFieldRole) -> Seq<FieldModel> {
    if index == 0 {
        Seq::empty()
    } else {
        match spec_nth_string(raw, strings, strings_end, index, strings) {
            Some((s, e)) => if s < e {
                seq![FieldModel { role, offset: s, bytes: raw.subrange(s, e) }]
            } else {
                Seq::empty()
            },
            None => Seq::empty(),
        }
    }
}

/// The byte at `k`, or 0 past the end (as `get(k).copied().unwrap_or(0)`).
pub open spec fn byte_or_zero(raw: Seq<u8>, k: int) -> int {
    if 0 <= k < raw.len() { raw[k] as int } else { 0 }
}

/// The manufacturer and product fields of a structure at `header`.
pub open spec fn spec_structure_fields(
    raw: Seq<u8>,
    header: int,
    strings: int,
    strings_end: int,
    mfr: SmbiosFieldRole,
    product: SmbiosFieldRole,
) -> Seq<FieldModel> {
    spec_field(raw, byte_or_zero(raw, header + 4), strings, strings_end, mfr)
        + spec_field(raw, byte_or_zero(raw, header + 5), strings, strings_end, product)
}

/// All fields of the structures from `pos` on, in table order, up to the
/// end-of-table structure (type 127) or the first malformed header.
pub open spec fn spec_fields_from(raw: Seq<u8>, pos: int) -> Seq<FieldModel>
    decreases raw.len() - pos,
{
    if pos < 0 || pos + 4 > raw.len() {
        Seq::empty()
    } else {
        let ty = raw[pos];
        let hdr_len = raw[pos + 1] as int;
        if hdr_len < 4 || pos + hdr_len > raw.len() {
            Seq::empty()
        } else {
            let strings = pos + hdr_len;
            let strings_end = spec_strings_end(raw, strings);
            if ty == 127 {
                Seq::empty()
            } else {
                let here = if ty == 1 {
                    spec_structure_fields(raw, pos, strings, strings_end, SmbiosFieldRole::Type1Manufacturer, SmbiosFieldRole::Type1ProductName)
                } else if ty == 2 {
                    spec_structure_fields(raw, pos, strings, strings_end, SmbiosFieldRole::Type2Manufacturer, SmbiosFieldRole::Type2Product)
                } else {
                    Seq::empty()
                };
                if pos < strings_end <= raw.len() {
                    here + spec_fields_from(raw, strings_end)
                } else {
                    here
                }
            }
        }
    }
}

/// An extracted field agrees with its model.
pub open spec fn field_matches(f: SmbiosField, m: FieldModel) -> bool {
    &&& f.role == m.role
    &&& f.offset == m.offset
    &&& f.value@ == utf8_lossy(m.bytes)
}

proof fn lemma_strings_end_bounds(raw: Seq<u8>, strings: int)
    requires
        0 <= strings <= raw.len(),
    ensures
        strings <= spec_strings_end(raw, strings) <= raw.len(),
    decreases raw.len() - strings,
{
    if strings + 1 < raw.len() && !(raw[strings] == 0 && raw[strings + 1] == 0) {
        lemma_strings_end_bounds(raw, strings + 1);
    }
}

proof fn lemma_nth_string_bounds(raw: Seq<u8>, i: int, end: int, left: int, seg_start: int)
    requires
        0 <= seg_start <= i,
        end <= raw.len(),
    ensures
        spec_nth_string(raw, i, end, left, seg_start) matches Some((s, e)) ==> 0 <= s <= e < end,
    decreases end - i,
{
    if i < end && left >= 1 {
        if raw[i] == 0 {
            if left != 1 {
                lemma_nth_string_bounds(raw, i + 1, end, left - 1, i + 1);
            }
        } else {
            lemma_nth_string_bounds(raw, i + 1, end, left, seg_start);
        }
    }
}

/// End of the string area starting at `strings`.
fn strings_end(raw: &Vec<u8>, strings: usize) -> (r: usize)
    requires
        strings <= raw@.len(),
    ensures
        r == spec_strings_end(raw@, strings as int),
{
    let mut k = strings;
    while raw.len() - k >= 2
        invariant
            strings <= k <= raw@.len(),
            spec_strings_end(raw@, strings as int) == spec_strings_end(raw@, k as int),
        decreases raw@.len() - k,
    {
        if raw[k] == 0 && raw[k + 1] == 0 {
            return k + 2;
        }
        k = k + 1;
    }
    raw.len()
}

/// Reads string `index` (1-based) of `data[start..end]`: its text and the
/// offset of its first byte; an empty string and offset 0 when absent.
fn read_smbios_string(data: &Vec<u8>, start: usize, end: usize, index: usize) -> (r: (String, usize))
    requires
        start <= end <= data@.len(),
        index >= 1,
    ensures
        match spec_nth_string(data@, start as int, end as int, index as int, start as int) {
            Some((s, e)) => r.0@ == utf8_lossy(data@.subrange(s, e)) && r.1 == s,
            None => r.0@.len() == 0 && r.1 == 0,
        },
{
    let mut nth: usize = 0;
    let mut seg_start = start;
    let mut i = start;
    while i < end
        invariant
            start <= seg_start <= i <= end <= data@.len(),
            nth < index,
            spec_nth_string(data@, start as int, end as int, index as int, start as int)
                == spec_nth_string(data@, i as int, end as int, (index - nth) as int, seg_start as int),
        decreases end - i,
    {
        if data[i] == 0 {
            nth = nth + 1;
            if nth == index {
                let bytes = copy_range(data.as_slice(), seg_start, i);
                return (lossy_utf8(bytes.as_slice()), seg_start);
            }
            seg_start = i + 1;
        }
        i = i + 1;
    }
    (String::new(), 0)
}

impl SmbiosTable {
    /// Wraps the raw table bytes.
    pub fn new(data: Vec<u8>) -> (t: Self)
        ensures
            t@ == data@,
    {
        SmbiosTable { raw: data }
    }

    /// Appends the field `index` names, when it is present and non-empty.
    fn push_field(&self, index: usize, strings: usize, strings_end: usize, fields: &mut Vec<SmbiosField>, role: SmbiosFieldRole)
        requires
            strings <= strings_end <= self@.len(),
        ensures
            final(fields)@.len() == old(fields)@.len() + spec_field(self@, index as int, strings as int, strings_end as int, role).len(),
            forall|j: int| 0 <= j < old(fields)@.len() ==> final(fields)@[j] == old(fields)@[j],
            forall|j: int| 0 <= j < spec_field(self@, index as int, strings as int, strings_end as int, role).len()
                ==> field_matches(#[trigger] final(fields)@[old(fields)@.len() + j],
                    spec_field(self@, index as int, strings as int, strings_end as int, role)[j]),
    {
        if index == 0 {
            return;
        }
        let (value, offset) = read_smbios_string(&self.raw, strings, strings_end, index);
        proof {
            lemma_nth_string_bounds(self.raw@, strings as int, strings_end as int, index as int, strings as int);
        }
        let ghost found = spec_nth_string(self.raw@, strings as int, strings_end as int, index as int, strings as int);
        if self.nonempty_string(strings, strings_end, index) {
            fields.push(SmbiosField { role, offset, value });
        }
    }

    /// String `index` exists and has at least one byte.
    fn nonempty_string(&self, strings: usize, strings_end: usize, index: usize) -> (r: bool)
        requires
            strings <= strings_end <= self@.len(),
            index >= 1,
        ensures
            r == (spec_nth_string(self@, strings as int, strings_end as int, index as int, strings as int) matches Some((s, e)) && s < e),
    {
        let mut nth: usize = 0;
        let mut seg_start = strings;
        let mut i = strings;
        while i < strings_end
            invariant
                strings <= seg_start <= i <= strings_end <= self.raw@.len(),
                nth < index,
                spec_nth_string(self.raw@, strings as int, strings_end as int, index as int, strings as int)
                    == spec_nth_string(self.raw@, i as int, strings_end as int, (index - nth) as int, seg_start as int),
            decreases strings_end - i,
        {
            if self.raw[i] == 0 {
                nth = nth + 1;
                if nth == index {
                    return seg_start < i;
                }
                seg_start = i + 1;
            }
            i = i + 1;
        }
        false
    }

    /// Appends the manufacturer (`+4`) and product (`+5`) fields of the structure at `header`.
    fn collect(
        &self,
        header: usize,
        strings: usize,
        strings_end: usize,
        fields: &mut Vec<SmbiosField>,
        mfr: SmbiosFieldRole,
        product: SmbiosFieldRole,
    )
        requires
            strings <= strings_end <= self@.len(),
            header <= self@.len(),
        ensures
            final(fields)@.len() == old(fields)@.len() + spec_structure_fields(self@, header as int, strings as int, strings_end as int, mfr, product).len(),
            forall|j: int| 0 <= j < old(fields)@.len() ==> final(fields)@[j] == old(fields)@[j],
            forall|j: int| 0 <= j < spec_structure_fields(self@, header as int, strings as int, strings_end as int, mfr, product).len()
                ==> field_matches(#[trigger] final(fields)@[old(fields)@.len() + j],
                    spec_structure_fields(self@, header as int, strings as int, strings_end as int, mfr, product)[j]),
    {
        let ghost f0 = fields@;
        let mfr_idx = if self.raw.len() - header > 4 { self.raw[header + 4] as usize } else { 0 };
        self.push_field(mfr_idx, strings, strings_end, fields, mfr);
        let ghost f1 = fields@;
        let prod_idx = if self.raw.len() - header > 5 { self.raw[header + 5] as usize } else { 0 };
        self.push_field(prod_idx, strings, strings_end, fields, product);
        let ghost a = spec_field(self@, byte_or_zero(self@, header + 4), strings as int, strings_end as int, mfr);
        let ghost b = spec_field(self@, byte_or_zero(self@, header + 5), strings as int, strings_end as int, product);
        assert forall|j: int| 0 <= j < (a + b).len() implies field_matches(#[trigger] fields@[f0.len() + j], (a + b)[j]) by {
            if j < a.len() {
                assert(fields@[f0.len() + j] == f1[f0.len() + j]);
            } else {
                assert(fields@[f1.len() + (j - a.len())] == fields@[f0.len() + j]);
            }
        }
    }

    /// Extracts the Type 1 and Type 2 manufacturer and product strings, in table order.
    pub fn extract_fields(&self) -> (res: Result<Vec<SmbiosField>, SmbiosError>)
        ensures
            match res {
                Ok(fields) => {
                    &&& spec_fields_from(self@, 0).len() > 0
                    &&& fields@.len() == spec_fields_from(self@, 0).len()
                    &&& forall|j: int| 0 <= j < fields@.len() ==> field_matches(#[trigger] fields@[j], spec_fields_from(self@, 0)[j])
                },
                Err(e) => e == SmbiosError::NoSystemOrBaseboardStrings && spec_fields_from(self@, 0).len() == 0,
            },
    {
        let mut fields: Vec<SmbiosField> = Vec::new();
        let mut pos: usize = 0;
        let ghost raw = self.raw@;
        let ghost mut models: Seq<FieldModel> = Seq::empty();
        loop
            invariant
                raw == self.raw@,
                pos <= raw.len(),
                spec_fields_from(raw, 0) == models + spec_fields_from(raw, pos as int),
                fields@.len() == models.len(),
                forall|j: int| 0 <= j < fields@.len() ==> field_matches(#[trigger] fields@[j], models[j]),
            ensures
                spec_fields_from(raw, 0) == models,
                fields@.len() == models.len(),
                forall|j: int| 0 <= j < fields@.len() ==> field_matches(#[trigger] fields@[j], models[j]),
            decreases raw.len() - pos,
        {
            if self.raw.len() - pos < 4 {
                assert(models + spec_fields_from(raw, pos as int) =~= models);
                break;
            }
            let ty = self.raw[pos];
            let hdr_len = self.raw[pos + 1] as usize;
            if hdr_len < 4 || hdr_len > self.raw.len() - pos {
                assert(models + spec_fields_from(raw, pos as int) =~= models);
                break;
            }
            let strings = pos + hdr_len;
            let se = strings_end(&self.raw, strings);
            proof {
                lemma_strings_end_bounds(raw, strings as int);
            }
            let ghost here = if ty == 1 {
                spec_structure_fields(raw, pos as int, strings as int, se as int, SmbiosFieldRole::Type1Manufacturer, SmbiosFieldRole::Type1ProductName)
            } else if ty == 2 {
                spec_structure_fields(raw, pos as int, strings as int, se as int, SmbiosFieldRole::Type2Manufacturer, SmbiosFieldRole::Type2Product)
            } else {
                Seq::empty()
            };
            if ty == 127 {
                assert(models + spec_fields_from(raw, pos as int) =~= models);
                break;
            }
            let ghost before = fields@;
            if ty == 1 {
                self.collect(pos, strings, se, &mut fields, SmbiosFieldRole::Type1Manufacturer, SmbiosFieldRole::Type1ProductName);
            } else if ty == 2 {
                self.collect(pos, strings, se, &mut fields, SmbiosFieldRole::Type2Manufacturer, SmbiosFieldRole::Type2Product);
            }
            proof {
                assert(spec_fields_from(raw, pos as int) == here + spec_fields_from(raw, se as int));
                assert(models + (here + spec_fields_from(raw, se as int)) =~= (models + here) + spec_fields_from(raw, se as int));
                assert forall|j: int| 0 <= j < fields@.len() implies field_matches(#[trigger] fields@[j], (models + here)[j]) by {
                    if j < before.len() {
                        assert(fields@[j] == before[j]);
                    } else {
                        assert(fields@[before.len() + (j - before.len())] == fields@[j]);
                    }
                }
                models = models + here;
            }
            pos = se;
        }
        if fields.len() == 0 {
            return Err(SmbiosError::NoSystemOrBaseboardStrings);
        }
        Ok(fields)
    }
}

/// The text a role's string becomes for the device model `model`: the
/// manufacturer strings become `XIAOMI`, the baseboard product the model code,
/// and the system product name the marketing name of a known model (any other
/// model code stays as it is; the caller handles its length).
pub open spec fn spec_target_value(role: SmbiosFieldRole, model: Seq<char>) -> Seq<char> {
    match role {
        SmbiosFieldRole::Type1Manufacturer => "XIAOMI"@,
        SmbiosFieldRole::Type2Manufacturer => "XIAOMI"@,
        SmbiosFieldRole::Type2Product => model,
        SmbiosFieldRole::Type1ProductName => if model == "TM2424"@ {
            "Xiaomi Book Pro 14 2026"@
        } else if model == "TM2309"@ {
            "Redmi Book 16 2024"@
        } else {
            model
        },
    }
}

impl SmbiosFieldRole {
    /// The replacement text of this role for the device model `model_code`.
    pub fn target_value<'a>(&self, model_code: &'a str) -> (r: &'a str)
        ensures
            r@ == spec_target_value(*self, model_code@),
    {
        match self {
            SmbiosFieldRole::Type1Manufacturer => "XIAOMI",
            SmbiosFieldRole::Type2Manufacturer => "XIAOMI",
            SmbiosFieldRole::Type2Product => model_code,
            SmbiosFieldRole::Type1ProductName => {
                if str_eq(model_code, "TM2424") {
                    "Xiaomi Book Pro 14 2026"
                } else if str_eq(model_code, "TM2309") {
                    "Redmi Book 16 2024"
                } else {
                    model_code
                }
            },
        }
    }
}

} // verus!
