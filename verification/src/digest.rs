use vstd::prelude::*;
use sha1::Digest;

verus! {

/// What SHA-1 gives for the UTF-8 bytes of a text.
pub uninterp spec fn sha1_digest(text: Seq<char>) -> Seq<u8>;

/// Calls `sha1::Sha1::digest` on the UTF-8 bytes of `text`; the result is named
/// `sha1_digest` of the text, and is 20 bytes long, as the hash's output size (`U20`)
/// fixes.
#[verifier::external_body]
pub(crate) fn sha1_bytes(text: &str) -> (r: Vec<u8>)
    ensures
        r@ == sha1_digest(text@),
        r@.len() == 20,
{
    sha1::Sha1::digest(text.as_bytes()).to_vec()
}

/// A lower-case hexadecimal digit.
pub open spec fn hex_digit(d: int) -> char {
    if d < 10 {
        (('0' as int) + d) as char
    } else {
        (('a' as int) + d - 10) as char
    }
}

/// `{:x}` of a digest: two lower-case hexadecimal digits per byte.
pub open spec fn hex(bytes: Seq<u8>) -> Seq<char>
    decreases bytes.len(),
{
    if bytes.len() == 0 {
        seq![]
    } else {
        hex(bytes.drop_last()) + seq![hex_digit((bytes.last() / 16) as int), hex_digit((bytes.last() % 16) as int)]
    }
}

pub proof fn lemma_hex_len(bytes: Seq<u8>)
    ensures
        hex(bytes).len() == 2 * bytes.len(),
    decreases bytes.len(),
{
    if bytes.len() > 0 {
        lemma_hex_len(bytes.drop_last());
    }
}

fn hex_digit_exec(d: u8) -> (c: char)
    requires
        d < 16,
    ensures
        c == hex_digit(d as int),
{
    if d < 10 {
        crate::text::char_from_ascii(48 + d as u32)
    } else {
        crate::text::char_from_ascii(97 + (d as u32) - 10)
    }
}

/// The lower-case hexadecimal text of some bytes.
pub fn hex_string(bytes: &Vec<u8>) -> (r: String)
    ensures
        r@ == hex(bytes@),
{
    let mut out: Vec<char> = Vec::new();
    for i in 0..bytes.len()
        invariant
            out@ == hex(bytes@.take(i as int)),
    {
        assert(bytes@.take(i + 1).drop_last() =~= bytes@.take(i as int));
        let b = bytes[i];
        let ghost o0 = out@;
        out.push(hex_digit_exec(b / 16));
        out.push(hex_digit_exec(b % 16));
        assert(out@ =~= o0 + seq![hex_digit((b / 16) as int), hex_digit((b % 16) as int)]);
    }
    assert(bytes@.take(bytes.len() as int) =~= bytes@);
    crate::text::string_of(&out)
}

/// The file that keeps a repository's worktree records in: named by the
/// first 16 hexadecimal digits of the SHA-1 of the repository's common git directory.
pub open spec fn metadata_file_spec(common_dir: Seq<char>) -> Seq<char> {
    "worktree_metadata_"@ + hex(sha1_digest(common_dir)).take(16) + ".toml"@
}

pub fn metadata_file_name(common_dir: &str) -> (r: String)
    ensures
        r@ == metadata_file_spec(common_dir@),
{
    let d = sha1_bytes(common_dir);
    let h = hex_string(&d);
    proof {
        lemma_hex_len(d@);
    }
    let hc = crate::text::chars_of(h.as_str());
    let first = crate::text::take_chars(&hc, 16);
    let mut s = String::from_str("worktree_metadata_");
    s.append(crate::text::string_of(&first).as_str());
    s.append(".toml");
    s
}

} // verus!
