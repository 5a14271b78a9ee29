//! The named data block that carries a function's metadata in the compiled
//! module: its identifier and its JSON payload.
use vstd::prelude::*;
use vstd::utf8::{encode_scalar, encode_utf8, encode_utf8_decode_utf8, is_ascii_chars, is_ascii_chars_encode_utf8};

use crate::func::{FunctionData, FunctionMetadata};
use crate::options::ExternRefError;

verus! {

/// serde_json's error type, carried through as an opaque value.
#[verifier::external_type_specification]
#[verifier::external_body]
pub struct ExJsonError(serde_json::Error);

/// A lowercase hexadecimal digit, for `n < 16`.
pub open spec fn hex_digit(n: u32) -> u8 {
    if n < 10 {
        (0x30 + n) as u8
    } else {
        (0x61 + n - 10) as u8
    }
}

/// How a character stands inside a JSON string: `"` and `\` after a
/// backslash; backspace, form feed, line feed, carriage return and tab as
/// `\b \f \n \r \t`; other characters below U+0020 as `\u00` and two
/// lowercase hex digits; any other character as its UTF-8 bytes.
pub open spec fn json_char(c: char) -> Seq<u8> {
    if c == '"' {
        seq![0x5cu8, 0x22]
    } else if c == '\\' {
        seq![0x5cu8, 0x5c]
    } else if c == '\u{8}' {
        seq![0x5cu8, 0x62]
    } else if c == '\u{c}' {
        seq![0x5cu8, 0x66]
    } else if c == '\n' {
        seq![0x5cu8, 0x6e]
    } else if c == '\r' {
        seq![0x5cu8, 0x72]
    } else if c == '\t' {
        seq![0x5cu8, 0x74]
    } else if (c as u32) < 0x20 {
        seq![0x5cu8, 0x75, 0x30, 0x30, hex_digit((c as u32) / 16), hex_digit((c as u32) % 16)]
    } else {
        encode_scalar(c as u32)
    }
}

/// The characters of `s` as they stand inside a JSON string.
pub open spec fn json_chars(s: Seq<char>) -> Seq<u8>
    decreases s.len(),
{
    if s.len() == 0 {
        Seq::empty()
    } else {
        json_char(s[0]) + json_chars(s.drop_first())
    }
}

/// The bytes of the JSON string literal for `s`: a quote, the escaped
/// characters and a quote.
pub open spec fn json_string_of(s: Seq<char>) -> Seq<u8> {
    seq![0x22u8] + json_chars(s) + seq![0x22u8]
}

/// Whether JSON writes `s` without escapes: no quote, no backslash and no
/// control character below U+0020.
pub open spec fn needs_no_escape(s: Seq<char>) -> bool {
    forall|i: int|
        0 <= i < s.len() ==> #[trigger] s[i] != '"' && s[i] != '\\' && (s[i] as u32) >= 0x20
}

proof fn lemma_json_chars_unescaped(s: Seq<char>)
    requires
        needs_no_escape(s),
    ensures
        json_chars(s) == encode_utf8(s),
    decreases s.len(),
{
    if s.len() > 0 {
        let rest = s.drop_first();
        assert forall|i: int| 0 <= i < rest.len() implies #[trigger] rest[i] != '"' && rest[i]
            != '\\' && (rest[i] as u32) >= 0x20 by {
            assert(rest[i] == s[i + 1]);
        }
        lemma_json_chars_unescaped(rest);
        let c = s[0];
        assert(c != '"' && c != '\\' && (c as u32) >= 0x20);
        assert(c != '\u{8}' && c != '\u{c}' && c != '\n' && c != '\r' && c != '\t') by {
            assert(('\u{8}' as u32) == 8);
            assert(('\u{c}' as u32) == 12);
            assert(('\n' as u32) == 10);
            assert(('\r' as u32) == 13);
            assert(('\t' as u32) == 9);
        }
        assert(json_char(c) == encode_scalar(c as u32));
    }
}

/// A string that needs no escapes stands in JSON as its UTF-8 bytes between
/// quotes.
pub proof fn lemma_json_string_unescaped(s: Seq<char>)
    requires
        needs_no_escape(s),
    ensures
        json_string_of(s) == quoted(s),
{
    lemma_json_chars_unescaped(s);
}

/// Relies on `serde_json::to_vec` on a `str`: it writes into a `Vec`, which
/// cannot fail, a quote, the characters escaped as `json_char` states, and a
/// quote.
#[verifier::external_body]
fn json_string(s: &str) -> (r: Result<Vec<u8>, serde_json::Error>)
    ensures
        r is Ok,
        r is Ok ==> r->Ok_0@ == json_string_of(s@),
{
    serde_json::to_vec(s)
}

/// The common start of every block identifier, `__extern_ref_data_`.
pub open spec fn identifier_prefix() -> Seq<char> {
    seq!['_', '_', 'e', 'x', 't', 'e', 'r', 'n', '_', 'r', 'e', 'f', '_', 'd', 'a', 't', 'a', '_']
}

/// The identifier of the block for function `name`, in `module` if it is
/// imported from one: `__extern_ref_data_<module>_<name>` or
/// `__extern_ref_data_<name>`.
pub open spec fn identifier_of(module: Option<Seq<char>>, name: Seq<char>) -> Seq<char> {
    match module {
        Some(m) => identifier_prefix() + m + seq!['_'] + name,
        None => identifier_prefix() + name,
    }
}

/// Whether `s` holds no `_`.
pub open spec fn no_underscore(s: Seq<char>) -> bool {
    forall|i: int| 0 <= i < s.len() ==> s[i] != '_'
}

/// Whether `s` begins with `p`.
pub open spec fn begins_with(s: Seq<char>, p: Seq<char>) -> bool {
    p.len() <= s.len() && s.subrange(0, p.len() as int) == p
}

/// Two declaration sites with different (module, name) pairs get different
/// block identifiers, where module names hold no `_` and the name of a site
/// outside any module does not begin with `<module>_` of the other site.
pub proof fn lemma_identifiers_distinct(
    m1: Option<Seq<char>>,
    n1: Seq<char>,
    m2: Option<Seq<char>>,
    n2: Seq<char>,
)
    requires
        m1 != m2 || n1 != n2,
        m1 is Some ==> no_underscore(m1->Some_0),
        m2 is Some ==> no_underscore(m2->Some_0),
        m1 is None && m2 is Some ==> !begins_with(n1, m2->Some_0 + seq!['_']),
        m2 is None && m1 is Some ==> !begins_with(n2, m1->Some_0 + seq!['_']),
    ensures
        identifier_of(m1, n1) != identifier_of(m2, n2),
{
    let p = identifier_prefix();
    let id1 = identifier_of(m1, n1);
    let id2 = identifier_of(m2, n2);
    if id1 == id2 {
        match (m1, m2) {
            (None, None) => {
                assert(id1.subrange(p.len() as int, id1.len() as int) == n1);
                assert(id2.subrange(p.len() as int, id2.len() as int) == n2);
            },
            (Some(g1), Some(g2)) => {
                let l1 = g1.len() as int;
                let l2 = g2.len() as int;
                if l1 < l2 {
                    assert(id1[p.len() + l1] == '_');
                    assert(id2[p.len() + l1] == g2[l1]);
                } else if l2 < l1 {
                    assert(id2[p.len() + l2] == '_');
                    assert(id1[p.len() + l2] == g1[l2]);
                } else {
                    assert(id1.subrange(p.len() as int, p.len() + l1) == g1);
                    assert(id2.subrange(p.len() as int, p.len() + l1) == g2);
                    assert(id1.subrange(p.len() + l1 + 1, id1.len() as int) == n1);
                    assert(id2.subrange(p.len() + l1 + 1, id2.len() as int) == n2);
                }
            },
            (None, Some(g2)) => {
                let q = g2 + seq!['_'];
                assert(id1.subrange(p.len() as int, id1.len() as int) == n1);
                assert(id2.subrange(p.len() as int, id2.len() as int) == q + n2);
                assert(n1.subrange(0, q.len() as int) == q);
            },
            (Some(g1), None) => {
                let q = g1 + seq!['_'];
                assert(id2.subrange(p.len() as int, id2.len() as int) == n2);
                assert(id1.subrange(p.len() as int, id1.len() as int) == q + n1);
                assert(n2.subrange(0, q.len() as int) == q);
            },
        }
    }
}

/// The decimal digits of `n`, as ASCII bytes, without leading zeros.
pub open spec fn decimal(n: nat) -> Seq<u8>
    decreases n,
{
    if n < 10 {
        seq![(0x30 + n) as u8]
    } else {
        decimal(n / 10).push((0x30 + n % 10) as u8)
    }
}

/// The numbers of `s` in decimal, separated by commas.
pub open spec fn index_list(s: Seq<usize>) -> Seq<u8>
    decreases s.len(),
{
    if s.len() == 0 {
        Seq::empty()
    } else if s.len() == 1 {
        decimal(s[0] as nat)
    } else {
        index_list(s.drop_last()).push(0x2cu8) + decimal(s.last() as nat)
    }
}

/// `{"name":`
pub open spec fn name_field() -> Seq<u8> {
    seq![0x7bu8, 0x22, 0x6e, 0x61, 0x6d, 0x65, 0x22, 0x3a]
}

/// `,"argIndicies":[`
pub open spec fn args_field() -> Seq<u8> {
    seq![
        0x2cu8, 0x22, 0x61, 0x72, 0x67, 0x49, 0x6e, 0x64, 0x69, 0x63, 0x69, 0x65, 0x73, 0x22,
        0x3a, 0x5b,
    ]
}

/// `],"retIsExternRef":`
pub open spec fn ret_field() -> Seq<u8> {
    seq![
        0x5du8, 0x2c, 0x22, 0x72, 0x65, 0x74, 0x49, 0x73, 0x45, 0x78, 0x74, 0x65, 0x72, 0x6e,
        0x52, 0x65, 0x66, 0x22, 0x3a,
    ]
}

/// `true}` or `false}`.
pub open spec fn ret_value_end(b: bool) -> Seq<u8> {
    if b {
        seq![0x74u8, 0x72, 0x75, 0x65, 0x7d]
    } else {
        seq![0x66u8, 0x61, 0x6c, 0x73, 0x65, 0x7d]
    }
}

/// The JSON payload of a function's metadata, given the JSON string literal
/// of its name: `{"name":<name>,"argIndicies":[<i>,...],"retIsExternRef":<b>}`.
pub open spec fn payload_of(m: FunctionMetadata, name_json: Seq<u8>) -> Seq<u8> {
    name_field() + name_json + args_field() + index_list(m.arg_indicies) + ret_field()
        + ret_value_end(m.ret_is_extern_ref)
}

/// A named data block, as values.
pub struct DataBlock {
    pub identifier: Seq<char>,
    pub payload: Seq<u8>,
    pub length: nat,
}

/// The block for a function's metadata, given the JSON string literal of its
/// name.
pub open spec fn block_of(m: FunctionMetadata, module: Option<Seq<char>>, name_json: Seq<u8>) -> DataBlock {
    DataBlock {
        identifier: identifier_of(module, m.name),
        payload: payload_of(m, name_json),
        length: payload_of(m, name_json).len(),
    }
}

/// A data block to be placed in the compiled module, in a section named by
/// its identifier.
#[derive(Debug)]
pub struct DataSection {
    /// The name of the section and of the static that holds the payload.
    pub identifier: String,
    /// The metadata encoded as UTF-8 JSON.
    pub payload: Vec<u8>,
    /// The number of bytes of the payload.
    pub length: usize,
}

impl View for DataSection {
    type V = DataBlock;

    open spec fn view(&self) -> DataBlock {
        DataBlock {
            identifier: self.identifier@,
            payload: self.payload@,
            length: self.length as nat,
        }
    }
}

/// The JSON string literal of a string that needs no escapes: the string
/// between quotes.
pub open spec fn quoted(s: Seq<char>) -> Seq<u8> {
    seq![0x22u8] + encode_utf8(s) + seq![0x22u8]
}

/// Maps an optional module name to its characters.
pub open spec fn module_view(module: Option<&str>) -> Option<Seq<char>> {
    match module {
        Some(m) => Some(m@),
        None => None,
    }
}

fn append_bytes(out: &mut Vec<u8>, bytes: Vec<u8>)
    ensures
        final(out)@ == old(out)@ + bytes@,
{
    let mut bytes = bytes;
    out.append(&mut bytes);
}

fn push_decimal(out: &mut Vec<u8>, n: usize)
    ensures
        final(out)@ == old(out)@ + decimal(n as nat),
    decreases n,
{
    if n < 10 {
        out.push((0x30 + n) as u8);
    } else {
        push_decimal(out, n / 10);
        out.push((0x30 + n % 10) as u8);
    }
}

fn push_index_list(out: &mut Vec<u8>, s: &Vec<usize>)
    ensures
        final(out)@ == old(out)@ + index_list(s@),
{
    let ghost start = out@;
    let mut i: usize = 0;
    while i < s.len()
        invariant
            i <= s@.len(),
            out@ == start + index_list(s@.subrange(0, i as int)),
        decreases s@.len() - i,
    {
        let ghost next = s@.subrange(0, i + 1);
        assert(next.drop_last() == s@.subrange(0, i as int));
        if i > 0 {
            out.push(0x2c);
        }
        push_decimal(out, s[i]);
        i = i + 1;
    }
    assert(s@.subrange(0, i as int) == s@);
}

/// Whether no two of `sections` share an identifier.
pub open spec fn identifiers_unique(sections: Seq<DataSection>) -> bool {
    forall|i: int, j: int|
        0 <= i < j < sections.len() ==> #[trigger] sections[i].identifier@
            != #[trigger] sections[j].identifier@
}

/// Looks for two blocks with the same identifier, which would collide in the
/// compiled module. Returns the positions of the first such pair in the order
/// `(0, 1), (0, 2), ..., (1, 2), ...`, or `None` where all identifiers differ.
pub fn find_duplicate_identifier(sections: &Vec<DataSection>) -> (r: Option<(usize, usize)>)
    ensures
        r is None <==> identifiers_unique(sections@),
        r matches Some((i, j)) ==> i < j < sections@.len() && sections@[i as int].identifier@
            == sections@[j as int].identifier@,
        r matches Some((i, j)) ==> forall|a: int, b: int|
            0 <= a < b < sections@.len() && (a < i || (a == i && b < j)) ==> #[trigger] sections@[a].identifier@
                != #[trigger] sections@[b].identifier@,
{
    let mut i: usize = 0;
    while i < sections.len()
        invariant
            i <= sections@.len(),
            forall|a: int, b: int|
                0 <= a < i && a < b < sections@.len() ==> #[trigger] sections@[a].identifier@
                    != #[trigger] sections@[b].identifier@,
        decreases sections@.len() - i,
    {
        let mut j: usize = i + 1;
        while j < sections.len()
            invariant
                i < sections@.len(),
                i + 1 <= j <= sections@.len(),
                forall|a: int, b: int|
                    0 <= a < i && a < b < sections@.len() ==> #[trigger] sections@[a].identifier@
                        != #[trigger] sections@[b].identifier@,
                forall|b: int|
                    i < b < j ==> sections@[i as int].identifier@ != #[trigger] sections@[b].identifier@,
            decreases sections@.len() - j,
        {
            if sections[i].identifier == sections[j].identifier {
                return Some((i, j));
            }
            j = j + 1;
        }
        i = i + 1;
    }
    None
}

impl FunctionData {
    /// The identifier of this function's data block, in `module` if the
    /// function is imported from one.
    pub fn section_identifier(&self, module: Option<&str>) -> (r: String)
        ensures
            r@ == identifier_of(module_view(module), self.name@),
    {
        let mut id = String::from_str("__extern_ref_data_");
        proof {
            reveal_strlit("__extern_ref_data_");
            reveal_strlit("_");
        }
        assert(id@ == identifier_prefix());
        match module {
            Some(m) => {
                id.append(m);
                id.append("_");
            },
            None => {},
        }
        id.append(self.name.as_str());
        id
    }

    /// The JSON payload of this function's metadata, given the JSON string
    /// literal of its name.
    pub fn payload_with_name_json(&self, name_json: &Vec<u8>) -> (r: Vec<u8>)
        ensures
            r@ == payload_of(self@, name_json@),
    {
        let mut out: Vec<u8> = vec![0x7b, 0x22, 0x6e, 0x61, 0x6d, 0x65, 0x22, 0x3a];
        append_bytes(&mut out, name_json.clone());
        append_bytes(
            &mut out,
            vec![0x2c, 0x22, 0x61, 0x72, 0x67, 0x49, 0x6e, 0x64, 0x69, 0x63, 0x69, 0x65, 0x73, 0x22, 0x3a, 0x5b],
        );
        push_index_list(&mut out, &self.arg_indicies);
        append_bytes(
            &mut out,
            vec![0x5d, 0x2c, 0x22, 0x72, 0x65, 0x74, 0x49, 0x73, 0x45, 0x78, 0x74, 0x65, 0x72, 0x6e, 0x52, 0x65, 0x66, 0x22, 0x3a],
        );
        if self.ret_is_extern_ref {
            append_bytes(&mut out, vec![0x74, 0x72, 0x75, 0x65, 0x7d]);
        } else {
            append_bytes(&mut out, vec![0x66, 0x61, 0x6c, 0x73, 0x65, 0x7d]);
        }
        out
    }

    /// Builds this function's data block, given the JSON string literal of
    /// its name.
    pub fn data_section_with_name_json(&self, module: Option<&str>, name_json: &Vec<u8>) -> (r:
        DataSection)
        ensures
            r@ == block_of(self@, module_view(module), name_json@),
    {
        let identifier = self.section_identifier(module);
        let payload = self.payload_with_name_json(name_json);
        let length = payload.len();
        DataSection { identifier, payload, length }
    }

    /// Builds this function's data block: its identifier, and the metadata
    /// encoded as JSON. Encoding a name into a `Vec`
    /// cannot fail, so the result is always `Ok`; `Serialization` stands for an
    /// encoder error should one ever be reported.
    pub fn to_data_section(&self, module: Option<&str>) -> (r: Result<DataSection, ExternRefError>)
        ensures
            r is Ok,
            r is Ok ==> r->Ok_0@ == block_of(self@, module_view(module), json_string_of(self.name@)),
            r is Ok && needs_no_escape(self.name@) ==> r->Ok_0@ == block_of(
                self@,
                module_view(module),
                quoted(self.name@),
            ),
    {
        proof {
            if needs_no_escape(self.name@) {
                lemma_json_string_unescaped(self.name@);
            }
        }
        match json_string(self.name.as_str()) {
            Ok(name_json) => Ok(self.data_section_with_name_json(module, &name_json)),
            Err(_) => Err(ExternRefError::Serialization),
        }
    }
}

} // verus!

verus! {

/// Encoding is a function of the metadata alone: equal metadata give equal
/// blocks, payloads included.
pub proof fn lemma_block_deterministic(
    m1: FunctionMetadata,
    m2: FunctionMetadata,
    module: Option<Seq<char>>,
)
    requires
        m1 == m2,
    ensures
        block_of(m1, module, json_string_of(m1.name)) == block_of(m2, module, json_string_of(m2.name)),
{
}

/// Whether a byte is an ASCII decimal digit.
pub open spec fn is_digit(b: u8) -> bool {
    0x30 <= b <= 0x39
}

proof fn lemma_decimal_digits(n: nat)
    ensures
        decimal(n).len() >= 1,
        n >= 10 ==> decimal(n).len() >= 2,
        forall|i: int| 0 <= i < decimal(n).len() ==> is_digit(#[trigger] decimal(n)[i]),
    decreases n,
{
    if n >= 10 {
        lemma_decimal_digits(n / 10);
    }
}

proof fn lemma_decimal_injective(a: nat, b: nat)
    requires
        decimal(a) == decimal(b),
    ensures
        a == b,
    decreases a,
{
    lemma_decimal_digits(a);
    lemma_decimal_digits(b);
    if a >= 10 && b >= 10 {
        let da = decimal(a);
        assert(da.drop_last() == decimal(a / 10));
        assert(decimal(b).drop_last() == decimal(b / 10));
        lemma_decimal_injective(a / 10, b / 10);
        assert(da.last() == (0x30 + a % 10) as u8);
        assert(a % 10 == b % 10);
        assert(a == 10 * (a / 10) + a % 10);
        assert(b == 10 * (b / 10) + b % 10);
    } else if a < 10 && b < 10 {
        assert(decimal(a)[0] == (0x30 + a) as u8);
        assert(decimal(b)[0] == (0x30 + b) as u8);
    } else if a < 10 {
        assert(decimal(a).len() == 1);
    } else {
        assert(decimal(b).len() == 1);
    }
}

proof fn lemma_index_list_bytes(s: Seq<usize>)
    ensures
        s.len() >= 1 ==> index_list(s).len() >= 1,
        s.len() == 0 ==> index_list(s).len() == 0,
        forall|i: int|
            0 <= i < index_list(s).len() ==> is_digit(#[trigger] index_list(s)[i]) || index_list(
                s,
            )[i] == 0x2c,
        s.len() == 1 ==> forall|i: int|
            0 <= i < index_list(s).len() ==> is_digit(#[trigger] index_list(s)[i]),
    decreases s.len(),
{
    if s.len() == 1 {
        lemma_decimal_digits(s[0] as nat);
    } else if s.len() >= 2 {
        lemma_index_list_bytes(s.drop_last());
        lemma_decimal_digits(s.last() as nat);
        let p = index_list(s.drop_last()).push(0x2cu8);
        let d = decimal(s.last() as nat);
        assert forall|i: int| 0 <= i < index_list(s).len() implies is_digit(
            #[trigger] index_list(s)[i],
        ) || index_list(s)[i] == 0x2c by {
            if i < p.len() - 1 {
                assert(index_list(s)[i] == index_list(s.drop_last())[i]);
            } else if i >= p.len() {
                assert(index_list(s)[i] == d[i - p.len()]);
            }
        }
    }
}

proof fn lemma_index_list_injective(s1: Seq<usize>, s2: Seq<usize>)
    requires
        index_list(s1) == index_list(s2),
    ensures
        s1 == s2,
    decreases s1.len() + s2.len(),
{
    lemma_index_list_bytes(s1);
    lemma_index_list_bytes(s2);
    let x = index_list(s1);
    if s1.len() == 0 || s2.len() == 0 {
        assert(s1.len() == 0 && s2.len() == 0);
        assert(s1 == s2);
    } else if s1.len() == 1 && s2.len() == 1 {
        lemma_decimal_injective(s1[0] as nat, s2[0] as nat);
        assert(s1 == s2);
    } else if s1.len() == 1 {
        let comma = index_list(s2.drop_last()).len() as int;
        assert(index_list(s2)[comma] == 0x2c);
        assert(is_digit(x[comma]));
    } else if s2.len() == 1 {
        let comma = index_list(s1.drop_last()).len() as int;
        assert(x[comma] == 0x2c);
        assert(is_digit(index_list(s2)[comma]));
    } else {
        let pre1 = index_list(s1.drop_last());
        let pre2 = index_list(s2.drop_last());
        let d1 = decimal(s1.last() as nat);
        let d2 = decimal(s2.last() as nat);
        lemma_decimal_digits(s1.last() as nat);
        lemma_decimal_digits(s2.last() as nat);
        assert(x == pre1.push(0x2cu8) + d1);
        assert(x == pre2.push(0x2cu8) + d2);
        if d1.len() < d2.len() {
            let k = x.len() - 1 - d1.len();
            assert(x[k] == 0x2c);
            assert(x[k] == d2[k - pre2.len() - 1]);
        } else if d2.len() < d1.len() {
            let k = x.len() - 1 - d2.len();
            assert(x[k] == 0x2c);
            assert(x[k] == d1[k - pre1.len() - 1]);
        } else {
            assert(d1 == x.subrange(x.len() - d1.len(), x.len() as int));
            assert(d2 == x.subrange(x.len() - d2.len(), x.len() as int));
            assert(pre1 == x.subrange(0, pre1.len() as int));
            assert(pre2 == x.subrange(0, pre2.len() as int));
            lemma_decimal_injective(s1.last() as nat, s2.last() as nat);
            lemma_index_list_injective(s1.drop_last(), s2.drop_last());
            assert(s1 == s1.drop_last().push(s1.last()));
            assert(s2 == s2.drop_last().push(s2.last()));
        }
    }
}

/// Whether a name stands in a payload as it is, between quotes: ASCII, with
/// no quote, backslash or control character.
pub open spec fn plain_name(s: Seq<char>) -> bool {
    is_ascii_chars(s) && needs_no_escape(s)
}

proof fn lemma_split_at_first(a1: Seq<u8>, b1: Seq<u8>, a2: Seq<u8>, b2: Seq<u8>, m: u8)
    requires
        a1 + seq![m] + b1 == a2 + seq![m] + b2,
        forall|i: int| 0 <= i < a1.len() ==> #[trigger] a1[i] != m,
        forall|i: int| 0 <= i < a2.len() ==> #[trigger] a2[i] != m,
    ensures
        a1 == a2,
        b1 == b2,
{
    let x = a1 + seq![m] + b1;
    let y = a2 + seq![m] + b2;
    let l1 = a1.len() as int;
    let l2 = a2.len() as int;
    if l1 < l2 {
        assert(x[l1] == m);
        assert(y[l1] == a2[l1]);
    } else if l2 < l1 {
        assert(y[l2] == m);
        assert(x[l2] == a1[l2]);
    }
    assert(a1 == x.subrange(0, l1));
    assert(a2 == y.subrange(0, l2));
    assert(b1 == x.subrange(l1 + 1, x.len() as int));
    assert(b2 == y.subrange(l2 + 1, y.len() as int));
}

proof fn lemma_drop_common_prefix(p: Seq<u8>, a: Seq<u8>, b: Seq<u8>)
    requires
        p + a == p + b,
    ensures
        a == b,
{
    assert(a == (p + a).subrange(p.len() as int, (p + a).len() as int));
    assert(b == (p + b).subrange(p.len() as int, (p + b).len() as int));
}

proof fn lemma_plain_name_bytes(s: Seq<char>)
    requires
        plain_name(s),
    ensures
        forall|i: int| 0 <= i < encode_utf8(s).len() ==> #[trigger] encode_utf8(s)[i] != 0x22u8,
{
    is_ascii_chars_encode_utf8(s);
    assert forall|i: int| 0 <= i < encode_utf8(s).len() implies #[trigger] encode_utf8(s)[i]
        != 0x22u8 by {
        assert(s[i] != '"');
        assert(s[i] as u8 == encode_utf8(s)[i]);
    }
}

/// The bytes of a payload after the name.
spec fn payload_tail(m: FunctionMetadata) -> Seq<u8> {
    index_list(m.arg_indicies) + seq![0x5du8] + (ret_field().drop_first() + ret_value_end(
        m.ret_is_extern_ref,
    ))
}

proof fn lemma_payload_shape(m: FunctionMetadata)
    ensures
        payload_of(m, quoted(m.name)) == (name_field() + seq![0x22u8]) + (encode_utf8(m.name)
            + seq![0x22u8] + (args_field() + payload_tail(m))),
{
    assert(ret_field() == seq![0x5du8] + ret_field().drop_first());
    assert(payload_of(m, quoted(m.name)) =~= (name_field() + seq![0x22u8]) + (encode_utf8(m.name)
        + seq![0x22u8] + (args_field() + payload_tail(m))));
}

/// A payload determines the metadata it encodes, for names that stand in it
/// as they are: two such payloads are equal only where the metadata are.
pub proof fn lemma_payload_injective(m1: FunctionMetadata, m2: FunctionMetadata)
    requires
        plain_name(m1.name),
        plain_name(m2.name),
        payload_of(m1, json_string_of(m1.name)) == payload_of(m2, json_string_of(m2.name)),
    ensures
        m1 == m2,
{
    lemma_json_string_unescaped(m1.name);
    lemma_json_string_unescaped(m2.name);
    lemma_payload_shape(m1);
    lemma_payload_shape(m2);
    lemma_drop_common_prefix(
        name_field() + seq![0x22u8],
        encode_utf8(m1.name) + seq![0x22u8] + (args_field() + payload_tail(m1)),
        encode_utf8(m2.name) + seq![0x22u8] + (args_field() + payload_tail(m2)),
    );
    lemma_plain_name_bytes(m1.name);
    lemma_plain_name_bytes(m2.name);
    lemma_split_at_first(
        encode_utf8(m1.name),
        args_field() + payload_tail(m1),
        encode_utf8(m2.name),
        args_field() + payload_tail(m2),
        0x22u8,
    );
    encode_utf8_decode_utf8(m1.name);
    encode_utf8_decode_utf8(m2.name);
    lemma_drop_common_prefix(args_field(), payload_tail(m1), payload_tail(m2));
    let list1 = index_list(m1.arg_indicies);
    let list2 = index_list(m2.arg_indicies);
    lemma_index_list_bytes(m1.arg_indicies);
    lemma_index_list_bytes(m2.arg_indicies);
    assert forall|i: int| 0 <= i < list1.len() implies #[trigger] list1[i] != 0x5du8 by {
        assert(is_digit(list1[i]) || list1[i] == 0x2c);
    }
    assert forall|i: int| 0 <= i < list2.len() implies #[trigger] list2[i] != 0x5du8 by {
        assert(is_digit(list2[i]) || list2[i] == 0x2c);
    }
    lemma_split_at_first(
        list1,
        ret_field().drop_first() + ret_value_end(m1.ret_is_extern_ref),
        list2,
        ret_field().drop_first() + ret_value_end(m2.ret_is_extern_ref),
        0x5du8,
    );
    lemma_index_list_injective(m1.arg_indicies, m2.arg_indicies);
    lemma_drop_common_prefix(
        ret_field().drop_first(),
        ret_value_end(m1.ret_is_extern_ref),
        ret_value_end(m2.ret_is_extern_ref),
    );
}

} // verus!
