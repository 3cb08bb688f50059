use vstd::prelude::*;
use crate::decimal::{decimal_of, Decimal};

verus! {

/// serde_json's JSON value, carried opaquely inside a decoded object.
#[verifier::external_type_specification]
#[verifier::external_body]
pub struct ExJsonValue(serde_json::Value);

/// serde_json's JSON object, read through `text_members`.
#[verifier::external_type_specification]
#[verifier::external_body]
#[verifier::reject_recursive_types(K)]
#[verifier::reject_recursive_types(V)]
pub struct ExJsonMap<K, V>(serde_json::Map<K, V>);

/// The members of a decoded JSON object whose value is a JSON string, by key.
pub uninterp spec fn text_members(m: serde_json::Map<String, serde_json::Value>) -> Map<
    Seq<char>,
    Seq<char>,
>;

/// The text-valued members of the JSON object that `text` encodes,
/// or `None` where `text` is not a JSON object.
pub uninterp spec fn json_object_of(text: Seq<char>) -> Option<Map<Seq<char>, Seq<char>>>;

/// Relies on serde_json::from_str: it decodes a JSON object, and its result
/// depends on the text alone.
#[verifier::external_body]
fn decode_object(text: &str) -> (r: Option<serde_json::Map<String, serde_json::Value>>)
    ensures
        r is None <==> json_object_of(text@) is None,
        r matches Some(m) ==> json_object_of(text@) == Some(text_members(m)),
{
    serde_json::from_str::<serde_json::Map<String, serde_json::Value>>(text).ok()
}

/// Relies on serde_json::Map::get: it looks a member up by key; only a JSON
/// string is handed back.
#[verifier::external_body]
fn member_text(m: &serde_json::Map<String, serde_json::Value>, key: &str) -> (r: Option<String>)
    ensures
        r is Some <==> text_members(*m).contains_key(key@),
        r matches Some(t) ==> t@ == text_members(*m)[key@],
{
    match m.get(key) {
        Some(serde_json::Value::String(t)) => Some(t.clone()),
        _ => None,
    }
}

/// `s[i..=j]` is the first brace-delimited block of `s`: `i` holds the first `{`
/// and `j` the first `}` after it.
pub open spec fn block_at(s: Seq<char>, i: int, j: int) -> bool {
    0 <= i < j < s.len() && s[i] == '{' && s[j] == '}' && (forall|k: int|
        0 <= k < i ==> s[k] != '{') && (forall|k: int| i < k < j ==> s[k] != '}')
}

/// The first brace-delimited block of `s`, from the first `{` to the first `}`
/// after it, both included.
pub open spec fn block_of(s: Seq<char>) -> Option<Seq<char>> {
    if exists|i: int, j: int| block_at(s, i, j) {
        let (i, j) = choose|i: int, j: int| block_at(s, i, j);
        Some(s.subrange(i, j + 1))
    } else {
        None
    }
}

proof fn lemma_block_unique(s: Seq<char>, i: int, j: int, a: int, b: int)
    requires
        block_at(s, i, j),
        block_at(s, a, b),
    ensures
        i == a && j == b,
{
    if i < a {
        assert(s[i] == '{');
    } else if a < i {
        assert(s[a] == '{');
    }
    if j < b {
        assert(s[j] == '}');
    } else if b < j {
        assert(s[b] == '}');
    }
}

/// Finds the first brace-delimited block of `s`.
pub fn find_block(s: &str) -> (r: Option<String>)
    ensures
        r is None <==> block_of(s@) is None,
        r matches Some(b) ==> block_of(s@) == Some(b@),
{
    let n = s.unicode_len();
    let mut i: usize = 0;
    while i < n && s.get_char(i) != '{'
        invariant
            i <= n == s@.len(),
            forall|k: int| 0 <= k < i ==> s@[k] != '{',
        decreases n - i,
    {
        i = i + 1;
    }
    if i == n {
        proof {
            assert forall|a: int, b: int| !block_at(s@, a, b) by {
                if block_at(s@, a, b) {
                    assert(s@[a] == '{');
                }
            }
        }
        return None;
    }
    let mut j: usize = i + 1;
    while j < n && s.get_char(j) != '}'
        invariant
            i < j <= n == s@.len(),
            s@[i as int] == '{',
            forall|k: int| 0 <= k < i ==> s@[k] != '{',
            forall|k: int| i < k < j ==> s@[k] != '}',
        decreases n - j,
    {
        j = j + 1;
    }
    if j == n {
        proof {
            assert forall|a: int, b: int| !block_at(s@, a, b) by {
                if block_at(s@, a, b) {
                    if a > i {
                        assert(s@[i as int] == '{');
                    }
                    assert(s@[b] == '}');
                }
            }
        }
        return None;
    }
    proof {
        assert(block_at(s@, i as int, j as int));
        let (a, b) = choose|a: int, b: int| block_at(s@, a, b);
        lemma_block_unique(s@, i as int, j as int, a, b);
    }
    Some(String::from_str(s.substring_char(i, j + 1)))
}

} // verus!

verus! {

/// Why a diagnostic text yields no loudness report.
#[derive(Clone, Debug, PartialEq, Eq)]
pub enum ParseError {
    /// The text holds no brace-delimited block.
    NoStructuredBlockFound,
    /// The block is no JSON object, or a field is missing or is not a decimal text.
    MalformedBlock(String),
}

/// The decimal that member `key` of `m` holds as text, if it does.
pub open spec fn decimal_member(m: Map<Seq<char>, Seq<char>>, key: Seq<char>) -> Option<
    (int, nat),
> {
    if m.contains_key(key) {
        decimal_of(m[key])
    } else {
        None
    }
}

/// Whether the text members `m` of a block make a loudness report.
pub open spec fn members_valid(m: Map<Seq<char>, Seq<char>>) -> bool {
    &&& decimal_member(m, "input_i"@) is Some
    &&& decimal_member(m, "input_tp"@) is Some
    &&& decimal_member(m, "input_lra"@) is Some
    &&& decimal_member(m, "input_thresh"@) is Some
    &&& decimal_member(m, "output_i"@) is Some
    &&& decimal_member(m, "output_tp"@) is Some
    &&& decimal_member(m, "output_lra"@) is Some
    &&& decimal_member(m, "output_thresh"@) is Some
    &&& m.contains_key("normalization_type"@)
    &&& decimal_member(m, "target_offset"@) is Some
}

/// The loudness statistics that one analysis pass measured.
#[derive(Clone, Debug, PartialEq, Eq)]
pub struct MusicLoudness {
    pub input_i: Decimal,
    pub input_tp: Decimal,
    pub input_lra: Decimal,
    pub input_thresh: Decimal,
    pub output_i: Decimal,
    pub output_tp: Decimal,
    pub output_lra: Decimal,
    pub output_thresh: Decimal,
    pub normalization_type: String,
    pub target_offset: Decimal,
}

impl MusicLoudness {
    pub open spec fn wf(self) -> bool {
        &&& self.input_i.wf()
        &&& self.input_tp.wf()
        &&& self.input_lra.wf()
        &&& self.input_thresh.wf()
        &&& self.output_i.wf()
        &&& self.output_tp.wf()
        &&& self.output_lra.wf()
        &&& self.output_thresh.wf()
        &&& self.target_offset.wf()
    }

    /// Each field of `self` is what the same-named member of `m` holds.
    pub open spec fn read_from(self, m: Map<Seq<char>, Seq<char>>) -> bool {
        &&& decimal_member(m, "input_i"@) == Some(self.input_i@)
        &&& decimal_member(m, "input_tp"@) == Some(self.input_tp@)
        &&& decimal_member(m, "input_lra"@) == Some(self.input_lra@)
        &&& decimal_member(m, "input_thresh"@) == Some(self.input_thresh@)
        &&& decimal_member(m, "output_i"@) == Some(self.output_i@)
        &&& decimal_member(m, "output_tp"@) == Some(self.output_tp@)
        &&& decimal_member(m, "output_lra"@) == Some(self.output_lra@)
        &&& decimal_member(m, "output_thresh"@) == Some(self.output_thresh@)
        &&& m.contains_key("normalization_type"@)
        &&& self.normalization_type@ == m["normalization_type"@]
        &&& decimal_member(m, "target_offset"@) == Some(self.target_offset@)
    }

    /// The report that a diagnostic text holds: the members of its first
    /// brace-delimited block, decoded as a JSON object.
    pub open spec fn parses_to(raw: Seq<char>, r: Result<MusicLoudness, ParseError>) -> bool {
        match block_of(raw) {
            None => r == Err::<MusicLoudness, ParseError>(ParseError::NoStructuredBlockFound),
            Some(b) => match json_object_of(b) {
                Some(m) if members_valid(m) => r matches Ok(rep) && rep.wf() && rep.read_from(m),
                _ => r matches Err(ParseError::MalformedBlock(_)),
            },
        }
    }

    /// Reads the loudness report out of the diagnostic text of an analysis pass.
    pub fn parse(raw: &str) -> (r: Result<MusicLoudness, ParseError>)
        ensures
            Self::parses_to(raw@, r),
    {
        let block = match find_block(raw) {
            Some(b) => b,
            None => return Err(ParseError::NoStructuredBlockFound),
        };
        let m = match decode_object(block.as_str()) {
            Some(m) => m,
            None => return Err(ParseError::MalformedBlock(String::from_str("not a JSON object"))),
        };
        let input_i = read_decimal(&m, "input_i")?;
        let input_tp = read_decimal(&m, "input_tp")?;
        let input_lra = read_decimal(&m, "input_lra")?;
        let input_thresh = read_decimal(&m, "input_thresh")?;
        let output_i = read_decimal(&m, "output_i")?;
        let output_tp = read_decimal(&m, "output_tp")?;
        let output_lra = read_decimal(&m, "output_lra")?;
        let output_thresh = read_decimal(&m, "output_thresh")?;
        let normalization_type = match member_text(&m, "normalization_type") {
            Some(t) => t,
            None => return Err(missing("normalization_type")),
        };
        let target_offset = read_decimal(&m, "target_offset")?;
        Ok(MusicLoudness {
            input_i,
            input_tp,
            input_lra,
            input_thresh,
            output_i,
            output_tp,
            output_lra,
            output_thresh,
            normalization_type,
            target_offset,
        })
    }
}

fn missing(key: &str) -> (r: ParseError)
    ensures
        r is MalformedBlock,
{
    let mut detail = String::from_str("missing or non-decimal field ");
    detail.append(key);
    ParseError::MalformedBlock(detail)
}

/// Reads member `key` of `m` as a decimal.
fn read_decimal(m: &serde_json::Map<String, serde_json::Value>, key: &str) -> (r: Result<
    Decimal,
    ParseError,
>)
    ensures
        r is Ok <==> decimal_member(text_members(*m), key@) is Some,
        r matches Ok(d) ==> d.wf() && decimal_member(text_members(*m), key@) == Some(d@),
        r matches Err(e) ==> e is MalformedBlock,
{
    match member_text(m, key) {
        Some(t) => match Decimal::parse(t.as_str()) {
            Some(d) => Ok(d),
            None => Err(missing(key)),
        },
        None => Err(missing(key)),
    }
}

} // verus!

verus! {

/// `line` is `label` followed by a text that reads back as the decimal `v`.
pub open spec fn shows(line: Seq<char>, label: Seq<char>, v: (int, nat)) -> bool {
    line.len() >= label.len() && line.subrange(0, label.len() as int) == label && decimal_of(
        line.subrange(label.len() as int, line.len() as int),
    ) == Some(v)
}

/// `label` followed by the text of `d`.
fn labelled(label: &str, d: &Decimal) -> (r: String)
    requires
        d.wf(),
    ensures
        shows(r@, label@, d@),
{
    let mut r = String::from_str(label);
    let t = d.to_text();
    r.append(t.as_str());
    proof {
        assert(r@.subrange(0, label@.len() as int) =~= label@);
        assert(r@.subrange(label@.len() as int, r@.len() as int) =~= t@);
    }
    r
}

impl MusicLoudness {
    /// Whether every number of the report is within the bounds of a decimal.
    pub fn is_valid(&self) -> (r: bool)
        ensures
            r == self.wf(),
    {
        self.input_i.is_valid() && self.input_tp.is_valid() && self.input_lra.is_valid()
            && self.input_thresh.is_valid() && self.output_i.is_valid()
            && self.output_tp.is_valid() && self.output_lra.is_valid()
            && self.output_thresh.is_valid() && self.target_offset.is_valid()
    }

    /// The report as ten labelled lines, one per field, in declaration order.
    pub fn show_loudness(&self) -> (r: Vec<String>)
        requires
            self.wf(),
        ensures
            r@.len() == 10,
            shows(r@[0]@, "Input I: "@, self.input_i@),
            shows(r@[1]@, "Input TP: "@, self.input_tp@),
            shows(r@[2]@, "Input LRA: "@, self.input_lra@),
            shows(r@[3]@, "Input Threshold: "@, self.input_thresh@),
            shows(r@[4]@, "Output I: "@, self.output_i@),
            shows(r@[5]@, "Output TP: "@, self.output_tp@),
            shows(r@[6]@, "Output LRA: "@, self.output_lra@),
            shows(r@[7]@, "Output Threshold: "@, self.output_thresh@),
            r@[8]@ == "Normalization Type: "@ + self.normalization_type@,
            shows(r@[9]@, "Target Offset: "@, self.target_offset@),
    {
        let mut r: Vec<String> = Vec::new();
        r.push(labelled("Input I: ", &self.input_i));
        r.push(labelled("Input TP: ", &self.input_tp));
        r.push(labelled("Input LRA: ", &self.input_lra));
        r.push(labelled("Input Threshold: ", &self.input_thresh));
        r.push(labelled("Output I: ", &self.output_i));
        r.push(labelled("Output TP: ", &self.output_tp));
        r.push(labelled("Output LRA: ", &self.output_lra));
        r.push(labelled("Output Threshold: ", &self.output_thresh));
        let mut kind = String::from_str("Normalization Type: ");
        kind.append(self.normalization_type.as_str());
        r.push(kind);
        r.push(labelled("Target Offset: ", &self.target_offset));
        r
    }
}

} // verus!
