//! The bundle model: the dynamic library payload that a generated module can
//! embed, and the three strategies by which the generated module loads it.

use vstd::prelude::*;

verus! {

/// A dynamic library that the generated module can load.
///
/// A payload is either carried directly as raw bytes, or referenced by a file
/// path. Only a raw-byte payload can be embedded by this library itself; a
/// file-backed payload must be read by the caller first.
#[derive(Debug, Clone)]
pub enum Bundle {
    RawBytes(Vec<u8>),
    File(String),
}

/// The mathematical view of a [`Bundle`].
pub ghost enum BundleModel {
    RawBytes(Seq<u8>),
    File(Seq<char>),
}

impl View for Bundle {
    type V = BundleModel;

    open spec fn view(&self) -> BundleModel {
        match self {
            Bundle::RawBytes(bytes) => BundleModel::RawBytes(bytes@),
            Bundle::File(path) => BundleModel::File(path@),
        }
    }
}

/// How the generated module acquires its library handle at runtime.
#[derive(Debug, Clone)]
pub enum LoadingStrategy {
    /// The consumer calls the generated `load` function with a path to the
    /// dynamic library on disk.
    Manual,
    /// The bundle is embedded; the consumer calls the generated `load_bundle`
    /// function, which writes the payload to the temp directory and loads it.
    ManuallyLoadedBundle(Bundle),
    /// The bundle is embedded and written/loaded automatically before the
    /// program's conventional entry point; no call is required.
    ImplicitlyLoadedBundle(Bundle),
}

/// The mathematical view of a [`LoadingStrategy`].
pub ghost enum StrategyModel {
    Manual,
    ManuallyLoadedBundle(BundleModel),
    ImplicitlyLoadedBundle(BundleModel),
}

impl View for LoadingStrategy {
    type V = StrategyModel;

    open spec fn view(&self) -> StrategyModel {
        match self {
            LoadingStrategy::Manual => StrategyModel::Manual,
            LoadingStrategy::ManuallyLoadedBundle(b) => StrategyModel::ManuallyLoadedBundle(b@),
            LoadingStrategy::ImplicitlyLoadedBundle(b) => StrategyModel::ImplicitlyLoadedBundle(b@),
        }
    }
}

impl LoadingStrategy {
    /// Returns `true` if the loading strategy is [`ImplicitlyLoadedBundle`].
    ///
    /// [`ImplicitlyLoadedBundle`]: LoadingStrategy::ImplicitlyLoadedBundle
    pub fn is_implicitly_loaded_bundle(&self) -> (r: bool)
        ensures
            r == self@ matches StrategyModel::ImplicitlyLoadedBundle(_),
    {
        matches!(self, LoadingStrategy::ImplicitlyLoadedBundle(..))
    }
}

/// The decimal digit character for `n` (`n < 10`).
pub open spec fn dec_digit(n: u8) -> char {
    if n == 0 {
        '0'
    } else if n == 1 {
        '1'
    } else if n == 2 {
        '2'
    } else if n == 3 {
        '3'
    } else if n == 4 {
        '4'
    } else if n == 5 {
        '5'
    } else if n == 6 {
        '6'
    } else if n == 7 {
        '7'
    } else if n == 8 {
        '8'
    } else {
        '9'
    }
}

/// The decimal text of one byte, without leading zeros.
pub open spec fn spec_dec(b: u8) -> Seq<char> {
    if b < 10 {
        seq![dec_digit(b)]
    } else if b < 100 {
        seq![dec_digit(b / 10), dec_digit(b % 10)]
    } else {
        seq![dec_digit(b / 100), dec_digit((b / 10) % 10), dec_digit(b % 10)]
    }
}

/// The text of a comma-separated byte list, from its second element on.
pub open spec fn spec_byte_rest(bs: Seq<u8>) -> Seq<char>
    decreases bs.len(),
{
    if bs.len() == 0 {
        Seq::empty()
    } else {
        seq![',', ' '] + spec_dec(bs[0]) + spec_byte_rest(bs.drop_first())
    }
}

/// The text of a comma-separated byte list, for example `1, 22, 255`.
pub open spec fn spec_byte_list(bs: Seq<u8>) -> Seq<char> {
    if bs.len() == 0 {
        Seq::empty()
    } else {
        spec_dec(bs[0]) + spec_byte_rest(bs.drop_first())
    }
}

/// The one-character string of a decimal digit.
fn digit_str(d: u8) -> (r: &'static str)
    requires
        d < 10,
    ensures
        r@ == seq![dec_digit(d)],
{
    let r = if d == 0 {
        "0"
    } else if d == 1 {
        "1"
    } else if d == 2 {
        "2"
    } else if d == 3 {
        "3"
    } else if d == 4 {
        "4"
    } else if d == 5 {
        "5"
    } else if d == 6 {
        "6"
    } else if d == 7 {
        "7"
    } else if d == 8 {
        "8"
    } else {
        "9"
    };
    proof {
        reveal_strlit("0");
        reveal_strlit("1");
        reveal_strlit("2");
        reveal_strlit("3");
        reveal_strlit("4");
        reveal_strlit("5");
        reveal_strlit("6");
        reveal_strlit("7");
        reveal_strlit("8");
        reveal_strlit("9");
        assert(r@ =~= seq![dec_digit(d)]);
    }
    r
}

/// Appends the decimal text of one byte.
fn push_dec(out: &mut String, b: u8)
    ensures
        final(out)@ == old(out)@ + spec_dec(b),
{
    if b >= 100 {
        out.append(digit_str(b / 100));
        out.append(digit_str((b / 10) % 10));
        out.append(digit_str(b % 10));
        proof {
            assert(final(out)@ =~= old(out)@ + spec_dec(b));
        }
    } else if b >= 10 {
        out.append(digit_str(b / 10));
        out.append(digit_str(b % 10));
        proof {
            assert(final(out)@ =~= old(out)@ + spec_dec(b));
        }
    } else {
        out.append(digit_str(b));
        proof {
            assert(final(out)@ =~= old(out)@ + spec_dec(b));
        }
    }
}

/// Renders the payload bytes as a comma-separated decimal list.
pub fn render_byte_list(bytes: &Vec<u8>) -> (r: String)
    ensures
        r@ == spec_byte_list(bytes@),
{
    let mut out = String::new();
    if bytes.len() == 0 {
        proof {
            assert(out@ =~= spec_byte_list(bytes@));
        }
        return out;
    }
    push_dec(&mut out, bytes[0]);
    let mut i: usize = 1;
    proof {
        assert(out@ + spec_byte_rest(bytes@.skip(1)) =~= spec_byte_list(bytes@));
    }
    loop
        invariant
            1 <= i <= bytes@.len(),
            out@ + spec_byte_rest(bytes@.skip(i as int)) == spec_byte_list(bytes@),
        decreases bytes@.len() - i,
    {
        if i >= bytes.len() {
            proof {
                assert(bytes@.skip(i as int) =~= Seq::<u8>::empty());
                assert(out@ + Seq::<char>::empty() =~= out@);
            }
            return out;
        }
        let ghost prev = out@;
        out.append(", ");
        push_dec(&mut out, bytes[i]);
        proof {
            reveal_strlit(", ");
            assert(", "@ =~= seq![',', ' ']);
            let tail = bytes@.skip(i as int);
            assert(tail[0] == bytes@[i as int]);
            assert(tail.drop_first() =~= bytes@.skip(i as int + 1));
            assert(spec_byte_rest(tail) == seq![',', ' '] + spec_dec(bytes@[i as int])
                + spec_byte_rest(bytes@.skip(i as int + 1)));
            assert(out@ =~= prev + seq![',', ' '] + spec_dec(bytes@[i as int]));
            assert(out@ + spec_byte_rest(bytes@.skip(i as int + 1)) =~= prev + spec_byte_rest(
                tail,
            ));
        }
        i = i + 1;
    }
}

/// The lowercase hexadecimal digit for `n` (`n < 16`).
pub open spec fn hex_digit(n: u8) -> char {
    if n == 0 {
        '0'
    } else if n == 1 {
        '1'
    } else if n == 2 {
        '2'
    } else if n == 3 {
        '3'
    } else if n == 4 {
        '4'
    } else if n == 5 {
        '5'
    } else if n == 6 {
        '6'
    } else if n == 7 {
        '7'
    } else if n == 8 {
        '8'
    } else if n == 9 {
        '9'
    } else if n == 10 {
        'a'
    } else if n == 11 {
        'b'
    } else if n == 12 {
        'c'
    } else if n == 13 {
        'd'
    } else if n == 14 {
        'e'
    } else {
        'f'
    }
}

/// The lowercase hexadecimal text of a byte string: two digits per byte,
/// high nibble first.
pub open spec fn hex_of(bytes: Seq<u8>) -> Seq<char>
    decreases bytes.len(),
{
    if bytes.len() == 0 {
        Seq::empty()
    } else {
        seq![hex_digit(bytes[0] / 16), hex_digit(bytes[0] % 16)] + hex_of(bytes.drop_first())
    }
}

/// The digest of a byte string; it depends on the bytes alone.
pub uninterp spec fn md5_digest_of(bytes: Seq<u8>) -> Seq<u8>;

/// Relies on md5::compute: a 16-byte digest that depends on the input bytes
/// alone.
#[verifier::external_body]
fn md5_digest(bytes: &Vec<u8>) -> (r: Vec<u8>)
    ensures
        r@ == md5_digest_of(bytes@),
        r@.len() == 16,
{
    md5::compute(bytes.as_slice()).0.to_vec()
}

/// Relies on hex::encode: lowercase hexadecimal, two digits per byte, high
/// nibble first.
#[verifier::external_body]
fn hex_encode(bytes: &Vec<u8>) -> (r: String)
    ensures
        r@ == hex_of(bytes@),
{
    hex::encode(bytes.as_slice())
}

impl Bundle {
    /// Renders the embedded form of the payload: the comma-separated decimal
    /// byte list for the generated constant, and the content hash string that
    /// names the temp-file artifact.
    ///
    /// Only a raw-byte payload can be embedded here; for a file-backed bundle
    /// the caller must read the file and supply the bytes first.
    pub fn create_bundle_constant(&self) -> (r: Result<(String, String), crate::Error>)
        ensures
            match r {
                Ok(parts) => self@ matches BundleModel::RawBytes(bs) && parts.0@
                    == spec_byte_list(bs) && parts.1@ == hex_of(md5_digest_of(bs)),
                Err(e) => self@ matches BundleModel::File(_) && e == crate::Error::BundleFileUnread,
            },
    {
        match self {
            Bundle::RawBytes(bytes) => {
                let constant = render_byte_list(bytes);
                let digest = md5_digest(bytes);
                let hash = hex_encode(&digest);
                Ok((constant, hash))
            },
            Bundle::File(_) => Err(crate::Error::BundleFileUnread),
        }
    }
}

/// A decimal digit character.
pub open spec fn is_dec_digit(c: char) -> bool {
    48 <= c as u32 && c as u32 <= 57
}

/// The numeric value of a decimal digit character.
pub open spec fn digit_val(c: char) -> int {
    c as u32 - 48
}

/// First index at or after `i` whose character is not a decimal digit.
pub open spec fn spec_scan_dec(s: Seq<char>, i: int) -> int
    decreases s.len() - i,
{
    if 0 <= i < s.len() && is_dec_digit(s[i]) {
        spec_scan_dec(s, i + 1)
    } else {
        i
    }
}

/// The value of the digit run `s[i..k)`, most significant digit first.
pub open spec fn spec_digits_val(s: Seq<char>, i: int, k: int) -> int
    decreases k - i,
{
    if i >= k {
        0
    } else {
        spec_digits_val(s, i, k - 1) * 10 + digit_val(s[k - 1])
    }
}

/// The bytes a comma-separated decimal byte-list text denotes, from `i` on:
/// what a reader of the emitted constant reads back out of it. `None` when
/// the text is not such a list.
pub open spec fn spec_parse_byte_list(s: Seq<char>, i: int) -> Option<Seq<u8>>
    decreases s.len() - i,
{
    if i < 0 {
        None
    } else if i >= s.len() {
        Some(Seq::empty())
    } else {
        let k = spec_scan_dec(s, i);
        if k == i {
            None
        } else {
            let v = spec_digits_val(s, i, k);
            if v > 255 {
                None
            } else if k >= s.len() {
                Some(seq![v as u8])
            } else if s[k] == ',' && k + 1 < s.len() && s[k + 1] == ' ' {
                match spec_parse_byte_list(s, crate::lex::clamp_after(i, k + 2, s.len() as int)) {
                    None => None,
                    Some(rest) => Some(seq![v as u8] + rest),
                }
            } else {
                None
            }
        }
    }
}

/// The decimal text of a byte is one to three digit characters whose value
/// folds back to the byte.
proof fn lemma_dec_digits(b: u8)
    ensures
        1 <= spec_dec(b).len() <= 3,
        forall|q: int| 0 <= q < spec_dec(b).len() ==> is_dec_digit(#[trigger] spec_dec(b)[q]),
        spec_digits_val(spec_dec(b), 0, spec_dec(b).len() as int) == b,
{
    assert(b == ((b / 100) * 10 + (b / 10) % 10) * 10 + b % 10) by (bit_vector);
    assert(b / 100 < 10) by (bit_vector);
    assert((b / 10) % 10 < 10) by (bit_vector);
    assert(b % 10 < 10) by (bit_vector);
    assert(b < 100 ==> b / 10 < 10) by (bit_vector);
    assert(b < 100 ==> b == (b / 10) * 10 + b % 10) by (bit_vector);
    let d = spec_dec(b);
    if b < 10 {
        assert(digit_val(dec_digit(b)) == b);
        assert(spec_digits_val(d, 0, 0) == 0);
        assert(spec_digits_val(d, 0, 1) == digit_val(d[0]));
    } else if b < 100 {
        assert(digit_val(dec_digit(b / 10)) == b / 10);
        assert(digit_val(dec_digit(b % 10)) == b % 10);
        assert(spec_digits_val(d, 0, 0) == 0);
        assert(spec_digits_val(d, 0, 1) == digit_val(d[0]));
        assert(spec_digits_val(d, 0, 2) == digit_val(d[0]) * 10 + digit_val(d[1]));
    } else {
        assert(digit_val(dec_digit(b / 100)) == b / 100);
        assert(digit_val(dec_digit((b / 10) % 10)) == (b / 10) % 10);
        assert(digit_val(dec_digit(b % 10)) == b % 10);
        assert(spec_digits_val(d, 0, 0) == 0);
        assert(spec_digits_val(d, 0, 1) == digit_val(d[0]));
        assert(spec_digits_val(d, 0, 2) == digit_val(d[0]) * 10 + digit_val(d[1]));
        assert(spec_digits_val(d, 0, 3) == (digit_val(d[0]) * 10 + digit_val(d[1])) * 10
            + digit_val(d[2]));
    }
}

/// The digit run value depends only on the digits themselves.
proof fn lemma_digits_val_sub(s: Seq<char>, i: int, k: int, d: Seq<char>)
    requires
        0 <= i <= k <= s.len(),
        s.subrange(i, k) == d,
    ensures
        spec_digits_val(s, i, k) == spec_digits_val(d, 0, d.len() as int),
    decreases k - i,
{
    if i < k {
        assert(d.len() == k - i);
        assert(s.subrange(i, k - 1) =~= d.subrange(0, d.len() - 1));
        lemma_digits_val_sub(s, i, k - 1, d.subrange(0, d.len() - 1));
        lemma_digits_val_sub(d, 0, d.len() - 1, d.subrange(0, d.len() - 1));
        assert(d[d.len() - 1] == s[k - 1]);
    }
}

/// A digit run followed by a non-digit (or the end) scans to exactly its end.
proof fn lemma_scan_dec_exact(s: Seq<char>, i: int, k: int)
    requires
        0 <= i <= k <= s.len(),
        forall|q: int| i <= q < k ==> is_dec_digit(#[trigger] s[q]),
        k == s.len() || !is_dec_digit(s[k]),
    ensures
        spec_scan_dec(s, i) == k,
    decreases k - i,
{
    if i < k {
        lemma_scan_dec_exact(s, i + 1, k);
    }
}

/// Reading the rendered byte list back yields the original bytes.
proof fn lemma_roundtrip_at(s: Seq<char>, i: int, bs: Seq<u8>)
    requires
        0 <= i <= s.len(),
        s.skip(i) == spec_byte_list(bs),
    ensures
        spec_parse_byte_list(s, i) == Some(bs),
    decreases bs.len(),
{
    if bs.len() == 0 {
        assert(s.skip(i).len() == 0);
        assert(bs =~= Seq::<u8>::empty());
    } else {
        let b = bs[0];
        let d = spec_dec(b);
        lemma_dec_digits(b);
        let dl = d.len() as int;
        let tail = spec_byte_rest(bs.drop_first());
        assert(s.skip(i) == d + tail);
        assert forall|q: int| i <= q < i + dl implies is_dec_digit(#[trigger] s[q]) by {
            assert(s[q] == s.skip(i)[q - i]);
            assert((d + tail)[q - i] == d[q - i]);
        }
        assert forall|q: int| 0 <= q < dl implies s[i + q] == d[q] by {
            assert(s[i + q] == s.skip(i)[q]);
        }
        let k = i + dl;
        assert(s.len() == i + d.len() + tail.len());
        if bs.len() == 1 {
            assert(tail.len() == 0);
            assert(k == s.len());
            lemma_scan_dec_exact(s, i, k);
            assert(s.subrange(i, k) =~= d);
            lemma_digits_val_sub(s, i, k, d);
            assert(spec_digits_val(s, i, k) == b);
            assert(spec_parse_byte_list(s, i) == Some(seq![b]));
            assert(seq![b] =~= bs);
        } else {
            assert(tail.len() >= 2);
            assert(tail[0] == ',' && tail[1] == ' ');
            assert(s[k] == s.skip(i)[k - i]);
            assert((d + tail)[dl] == tail[0]);
            assert(s[k + 1] == s.skip(i)[k + 1 - i]);
            assert((d + tail)[dl + 1] == tail[1]);
            assert(!is_dec_digit(s[k]));
            lemma_scan_dec_exact(s, i, k);
            assert(s.subrange(i, k) =~= d);
            lemma_digits_val_sub(s, i, k, d);
            assert(spec_digits_val(s, i, k) == b);
            let rest = bs.drop_first();
            assert(s.skip(k + 2) =~= spec_byte_list(rest)) by {
                assert(spec_byte_list(rest) == spec_dec(rest[0]) + spec_byte_rest(
                    rest.drop_first(),
                ));
                assert(tail == seq![',', ' '] + spec_dec(rest[0]) + spec_byte_rest(
                    rest.drop_first(),
                ));
                assert forall|q: int| 0 <= q < s.len() - k - 2 implies s.skip(k + 2)[q]
                    == spec_byte_list(rest)[q] by {
                    assert(s.skip(k + 2)[q] == s[k + 2 + q]);
                    assert(s[k + 2 + q] == s.skip(i)[k + 2 + q - i]);
                    assert((d + tail)[dl + 2 + q] == tail[2 + q]);
                    assert(tail[2 + q] == (seq![',', ' '] + (spec_dec(rest[0]) + spec_byte_rest(
                        rest.drop_first(),
                    )))[2 + q]);
                }
            }
            lemma_roundtrip_at(s, k + 2, rest);
            assert(crate::lex::clamp_after(i, k + 2, s.len() as int) == k + 2);
            assert(spec_parse_byte_list(s, i) == Some(seq![b] + rest));
            assert(seq![b] + rest =~= bs);
        }
    }
}

/// Round trip of an embedded bundle: the decimal byte-list text that the
/// generated constant holds denotes exactly the payload bytes, so writing
/// the constant back out at runtime reproduces the payload byte for byte.
pub proof fn lemma_bundle_roundtrip(bs: Seq<u8>)
    ensures
        spec_parse_byte_list(spec_byte_list(bs), 0) == Some(bs),
{
    let s = spec_byte_list(bs);
    assert(s.skip(0) =~= s);
    lemma_roundtrip_at(s, 0, bs);
}

} // verus!
