//! Splitting a document into its frontmatter block and its body, decoding the
//! block as YAML, and putting a document back together.

use vstd::prelude::*;
use vstd::string::StringSliceAdditionalSpecFns;
use vstd::utf8::*;

verus! {

broadcast use vstd::utf8::group_utf8_lib;

#[verifier::external_type_specification]
#[verifier::external_body]
pub struct ExYamlValue(serde_yaml::Value);

#[verifier::external_type_specification]
#[verifier::external_body]
pub struct ExYamlError(serde_yaml::Error);

/// Whether serde_yaml accepts these UTF-8 bytes as a YAML document.
pub uninterp spec fn yaml_accepts(text: Seq<u8>) -> bool;

/// Relies on serde_yaml::from_str: it decodes the text as a YAML value, and
/// whether it succeeds depends on the text alone.
#[verifier::external_body]
fn decode_yaml(text: &str) -> (r: Result<serde_yaml::Value, serde_yaml::Error>)
    ensures
        r is Ok <==> yaml_accepts(text.spec_bytes()),
{
    serde_yaml::from_str(text)
}

/// The text serde_yaml encodes a YAML value as, or `None` where it refuses.
pub uninterp spec fn yaml_text_of(v: serde_yaml::Value) -> Option<Seq<char>>;

/// Relies on serde_yaml::to_string: it encodes a YAML value as text, and
/// what it gives depends on the value alone.
#[verifier::external_body]
fn encode_yaml(v: &serde_yaml::Value) -> (r: Result<String, serde_yaml::Error>)
    ensures
        r is Ok <==> yaml_text_of(*v) is Some,
        r matches Ok(t) ==> yaml_text_of(*v) == Some(t@),
{
    serde_yaml::to_string(v)
}

/// Why a frontmatter block could not be decoded.
#[derive(Debug)]
pub enum DecodeError {
    /// The block is empty, or holds only spaces, tabs and line breaks.
    Blank,
    /// The block is not valid YAML.
    Syntax(serde_yaml::Error),
}

/// A space, tab, carriage return or line feed.
pub open spec fn is_blank_byte(c: u8) -> bool {
    c == 0x20u8 || c == 0x09u8 || c == 0x0du8 || c == 0x0au8
}

/// The text is empty or holds only blank bytes.
pub open spec fn is_blank(text: Seq<u8>) -> bool {
    forall|i: int| 0 <= i < text.len() ==> is_blank_byte(#[trigger] text[i])
}

/// A frontmatter block decodes when it is not blank and is valid YAML.
pub open spec fn block_decodes(block: Seq<u8>) -> bool {
    !is_blank(block) && yaml_accepts(block)
}

/// Whether a text is empty or holds only spaces, tabs and line breaks.
pub fn blank(text: &str) -> (r: bool)
    ensures
        r == is_blank(text.spec_bytes()),
{
    let bytes = text.as_bytes();
    let mut i: usize = 0;
    while i < bytes.len()
        invariant
            i <= bytes@.len(),
            bytes@ == text.spec_bytes(),
            forall|j: int| 0 <= j < i ==> is_blank_byte(#[trigger] bytes@[j]),
        decreases bytes@.len() - i,
    {
        let c = bytes[i];
        if !(c == 0x20 || c == 0x09 || c == 0x0d || c == 0x0a) {
            return false;
        }
        i = i + 1;
    }
    true
}

/// The delimiter line as characters.
pub open spec fn delimiter_line() -> Seq<char> {
    seq!['-', '-', '-', '\n']
}

/// The delimiter line, `"---\n"`, as UTF-8 bytes.
pub open spec fn delimiter() -> Seq<u8> {
    seq![0x2du8, 0x2du8, 0x2du8, 0x0au8]
}

/// A delimiter line starts at byte `i` of `b`.
pub open spec fn delimiter_at(b: Seq<u8>, i: int) -> bool {
    &&& 0 <= i
    &&& i + 4 <= b.len()
    &&& b.subrange(i, i + 4) == delimiter()
}

/// `i` is the first delimiter after the opening one: the search for the
/// closing line starts right after the opening line, at byte 4.
pub open spec fn is_closing_delimiter(b: Seq<u8>, i: int) -> bool {
    &&& 4 <= i
    &&& delimiter_at(b, i)
    &&& forall|j: int| 4 <= j < i ==> !delimiter_at(b, j)
}

/// The document opens with a delimiter line and holds a second one after it.
pub open spec fn has_frontmatter(b: Seq<u8>) -> bool {
    &&& delimiter_at(b, 0)
    &&& exists|i: int| is_closing_delimiter(b, i)
}

/// Where the closing delimiter line starts, for a document with frontmatter.
pub open spec fn closing_of(b: Seq<u8>) -> int
    recommends
        has_frontmatter(b),
{
    choose|i: int| is_closing_delimiter(b, i)
}

/// The frontmatter block of a document: the bytes between the two delimiter
/// lines, if there are two.
pub open spec fn block_of(b: Seq<u8>) -> Option<Seq<u8>> {
    if has_frontmatter(b) {
        Some(b.subrange(4, closing_of(b)))
    } else {
        None
    }
}

/// The body of a document: what follows the closing delimiter line, or the
/// whole document when it has no frontmatter.
pub open spec fn body_of(b: Seq<u8>) -> Seq<u8> {
    if has_frontmatter(b) {
        b.subrange(closing_of(b) + 4, b.len() as int)
    } else {
        b
    }
}

/// Two closing delimiters are the same one.
proof fn lemma_closing_unique(b: Seq<u8>, i: int, j: int)
    requires
        is_closing_delimiter(b, i),
        is_closing_delimiter(b, j),
    ensures
        i == j,
{
    if i < j {
        assert(!delimiter_at(b, i));
    } else if j < i {
        assert(!delimiter_at(b, j));
    }
}

/// In valid UTF-8, the byte after a one-byte character starts a character.
proof fn lemma_boundary_after_ascii(b: Seq<u8>, i: int)
    requires
        valid_utf8(b),
        0 <= i < b.len(),
        is_char_boundary(b, i),
        is_leading_byte_width_1(b[i]),
    ensures
        is_char_boundary(b, i + 1),
    decreases b.len(),
{
    let l = length_of_first_scalar(b);
    let p = pop_first_scalar(b);
    assert(1 <= l <= b.len());
    if i == 0 {
        assert(l == 1);
        assert(is_char_boundary(p, 0));
    } else {
        assert(is_char_boundary(p, i - l));
        assert(p[i - l] == b[i]);
        lemma_boundary_after_ascii(p, i - l);
    }
}

/// No delimiter line starts inside the block, counting one that would begin
/// in the block and end in the closing delimiter line after it.
pub open spec fn no_delimiter_within(block: Seq<u8>) -> bool {
    forall|j: int| 0 <= j < block.len() ==> !delimiter_at(block + delimiter(), j)
}

/// UTF-8 encoding distributes over concatenation.
proof fn lemma_encode_concat(a: Seq<char>, b: Seq<char>)
    ensures
        encode_utf8(a + b) == encode_utf8(a) + encode_utf8(b),
    decreases a.len(),
{
    if a.len() == 0 {
        assert(a + b =~= b);
        assert(encode_utf8(a) + encode_utf8(b) =~= encode_utf8(b));
    } else {
        assert((a + b).drop_first() =~= a.drop_first() + b);
        assert((a + b)[0] == a[0]);
        lemma_encode_concat(a.drop_first(), b);
        assert(encode_utf8(a + b) =~= encode_utf8(a) + encode_utf8(b));
    }
}

/// The delimiter line encodes to the delimiter bytes.
proof fn lemma_encode_delimiter()
    ensures
        encode_utf8(delimiter_line()) == delimiter(),
{
    let d = delimiter_line();
    assert(45u32 & 0x7F == 45u32) by (bit_vector);
    assert(10u32 & 0x7F == 10u32) by (bit_vector);
    assert(encode_scalar('-' as u32) =~= seq![0x2du8]);
    assert(encode_scalar('\n' as u32) =~= seq![0x0au8]);
    let d1 = d.drop_first();
    let d2 = d1.drop_first();
    let d3 = d2.drop_first();
    let d4 = d3.drop_first();
    assert(d4 =~= Seq::<char>::empty());
    assert(encode_utf8(d4) =~= Seq::<u8>::empty());
    assert(d3[0] == '\n');
    assert(encode_utf8(d3) =~= seq![0x0au8]);
    assert(d2[0] == '-');
    assert(encode_utf8(d2) =~= seq![0x2du8, 0x0au8]);
    assert(d1[0] == '-');
    assert(encode_utf8(d1) =~= seq![0x2du8, 0x2du8, 0x0au8]);
    assert(d[0] == '-');
    assert(encode_utf8(d) =~= delimiter());
}

/// Splitting a document put together from a block and a body, as `assemble`
/// does, gives back that block and that body, provided no delimiter line
/// starts inside the block.
pub proof fn lemma_split_of_assembled(block: Seq<char>, body: Seq<char>)
    requires
        no_delimiter_within(encode_utf8(block)),
    ensures
        block_of(encode_utf8(delimiter_line() + block + delimiter_line() + body)) == Some(
            encode_utf8(block),
        ),
        body_of(encode_utf8(delimiter_line() + block + delimiter_line() + body)) == encode_utf8(
            body,
        ),
{
    let d = delimiter();
    let t = encode_utf8(block);
    let b = encode_utf8(body);
    lemma_encode_delimiter();
    lemma_encode_concat(delimiter_line(), block);
    lemma_encode_concat(delimiter_line() + block, delimiter_line());
    lemma_encode_concat(delimiter_line() + block + delimiter_line(), body);
    let doc = encode_utf8(delimiter_line() + block + delimiter_line() + body);
    assert(doc == d + t + d + b);
    let close: int = 4 + t.len() as int;
    assert(doc.subrange(0, 4) =~= d);
    assert(doc.subrange(close, close + 4) =~= d);
    assert forall|j: int| 4 <= j < close implies !delimiter_at(doc, j) by {
        assert(doc.subrange(j, j + 4) =~= (t + d).subrange(j - 4, j));
        assert(!delimiter_at(t + d, j - 4));
    }
    assert(is_closing_delimiter(doc, close));
    lemma_closing_unique(doc, close, closing_of(doc));
    assert(doc.subrange(4, close) =~= t);
    assert(doc.subrange(close + 4, doc.len() as int) =~= b);
}

/// Splits a document into its frontmatter block and its body.
///
/// Frontmatter is present only when the document starts with the line
/// `"---\n"` and holds another `"---\n"` after it; the block is the text
/// between the two, and the body is everything after the second. Otherwise
/// there is no block and the body is the whole document.
pub fn parse_raw(s: &str) -> (r: (Option<&str>, &str))
    ensures
        r.0 is Some <==> has_frontmatter(s.spec_bytes()),
        r.0 matches Some(block) ==> block_of(s.spec_bytes()) == Some(block.spec_bytes()),
        r.1.spec_bytes() == body_of(s.spec_bytes()),
        r.0 is None ==> r.1@ == s@,
{
    let bytes = s.as_bytes();
    let n = bytes.len();
    let ghost b = s.spec_bytes();
    assert(bytes@ == b);
    if n >= 4 && bytes[0] == 0x2d && bytes[1] == 0x2d && bytes[2] == 0x2d && bytes[3] == 0x0a {
        assert(b.subrange(0, 4) =~= delimiter());
        let mut i: usize = 4;
        while i <= n - 4
            invariant
                4 <= i <= n,
                4 <= n,
                n == b.len(),
                bytes@ == b,
                b == s.spec_bytes(),
                delimiter_at(b, 0),
                forall|j: int| 4 <= j < i ==> !delimiter_at(b, j),
            decreases n - i,
        {
            if bytes[i] == 0x2d && bytes[i + 1] == 0x2d && bytes[i + 2] == 0x2d && bytes[i + 3]
                == 0x0a {
                assert(b.subrange(i as int, i + 4) =~= delimiter());
                assert(is_char_boundary(b, i as int));
                let (head, tail) = s.split_at(i);
                let ghost h = head.spec_bytes();
                let ghost t = tail.spec_bytes();
                assert(h =~= b.subrange(0, i as int));
                assert(t =~= b.subrange(i as int, n as int));
                proof {
                    assert(is_char_boundary(h, 4)) by {
                        lemma_boundary_after_ascii(h, 0);
                        lemma_boundary_after_ascii(h, 1);
                        lemma_boundary_after_ascii(h, 2);
                        lemma_boundary_after_ascii(h, 3);
                    }
                    assert(is_char_boundary(t, 4)) by {
                        lemma_boundary_after_ascii(t, 0);
                        lemma_boundary_after_ascii(t, 1);
                        lemma_boundary_after_ascii(t, 2);
                        lemma_boundary_after_ascii(t, 3);
                    }
                }
                let (_, block) = head.split_at(4);
                let (_, rest) = tail.split_at(4);
                assert(block.spec_bytes() =~= b.subrange(4, i as int));
                assert(rest.spec_bytes() =~= b.subrange(i + 4, n as int));
                assert(is_closing_delimiter(b, i as int));
                proof {
                    lemma_closing_unique(b, i as int, closing_of(b));
                }
                return (Some(block), rest);
            }
            assert(!delimiter_at(b, i as int)) by {
                if delimiter_at(b, i as int) {
                    assert(b.subrange(i as int, i + 4)[0] == b[i as int]);
                    assert(b.subrange(i as int, i + 4)[1] == b[i + 1]);
                    assert(b.subrange(i as int, i + 4)[2] == b[i + 2]);
                    assert(b.subrange(i as int, i + 4)[3] == b[i + 3]);
                }
            }
            i = i + 1;
        }
        assert(!has_frontmatter(b)) by {
            if has_frontmatter(b) {
                let k = closing_of(b);
                assert(k < i);
            }
        }
    } else {
        assert(!delimiter_at(b, 0)) by {
            if delimiter_at(b, 0) {
                assert(b.subrange(0, 4)[0] == b[0]);
                assert(b.subrange(0, 4)[1] == b[1]);
                assert(b.subrange(0, 4)[2] == b[2]);
                assert(b.subrange(0, 4)[3] == b[3]);
            }
        }
    }
    (None, s)
}

/// Decodes a frontmatter block. A blank block is refused before the YAML
/// decoder sees it: it holds no mapping of metadata.
pub fn decode_block(block: &str) -> (r: Result<serde_yaml::Value, DecodeError>)
    ensures
        r is Ok <==> block_decodes(block.spec_bytes()),
        r matches Err(e) ==> (e is Blank <==> is_blank(block.spec_bytes())),
{
    if blank(block) {
        return Err(DecodeError::Blank);
    }
    match decode_yaml(block) {
        Ok(v) => Ok(v),
        Err(e) => Err(DecodeError::Syntax(e)),
    }
}

/// Splits a document as `parse_raw` does and decodes its frontmatter block.
/// A document without a block gives `None`, and the decoder is not run.
pub fn parse(s: &str) -> (r: (Option<Result<serde_yaml::Value, DecodeError>>, &str))
    ensures
        r.0 is Some <==> has_frontmatter(s.spec_bytes()),
        r.0 matches Some(d) ==> (d is Ok <==> block_decodes(block_of(s.spec_bytes())->0)),
        r.0 matches Some(d) ==> (d matches Err(e) ==> (e is Blank <==> is_blank(
            block_of(s.spec_bytes())->0,
        ))),
        r.1.spec_bytes() == body_of(s.spec_bytes()),
        r.0 is None ==> r.1@ == s@,
{
    let (block, body) = parse_raw(s);
    match block {
        Some(text) => {
            let d = decode_block(text);
            (Some(d), body)
        },
        None => (None, body),
    }
}

/// Puts a document together: the block between two delimiter lines, then the
/// body; or the body alone when there is no block.
pub fn assemble(block: Option<&str>, body: &str) -> (r: String)
    ensures
        r@ == match block {
            Some(t) => delimiter_line() + t@ + delimiter_line() + body@,
            None => body@,
        },
{
    match block {
        Some(t) => {
            let delim = "---\n";
            proof {
                reveal_strlit("---\n");
            }
            assert(delim@ =~= delimiter_line());
            let mut out = String::from_str(delim);
            out.append(t);
            out.append(delim);
            out.append(body);
            out
        },
        None => String::from_str(body),
    }
}

/// Encodes the metadata as YAML and puts the document together. Without
/// metadata the result is the body unchanged; with metadata it is the encoded
/// text between two delimiter lines, then the body. Fails only where the
/// encoder refuses the value.
pub fn render(frontmatter: Option<&serde_yaml::Value>, body: &str) -> (r: Result<
    String,
    serde_yaml::Error,
>)
    ensures
        frontmatter is None ==> (r matches Ok(out) && out@ == body@),
        frontmatter matches Some(v) ==> (r is Ok <==> yaml_text_of(*v) is Some),
        frontmatter matches Some(v) ==> (r matches Ok(out) ==> out@ == delimiter_line()
            + yaml_text_of(*v)->0 + delimiter_line() + body@),
{
    match frontmatter {
        Some(v) => {
            let text = encode_yaml(v)?;
            let out = assemble(Some(text.as_str()), body);
            Ok(out)
        },
        None => Ok(assemble(None, body)),
    }
}

} // verus!
