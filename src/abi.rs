//! Contract-call arguments in the standard ABI layout: 32-byte words, with a
//! dynamic array of addresses placed after the heads at the offset its head
//! word gives. Decoding is driven by a list of parameter kinds.
use vstd::prelude::*;
use crate::address::Address;
use crate::word::{
    be_bytes, be_nat, from_big_endian, lemma_be_bytes_len, lemma_be_round_trip, lemma_byte_pow_32,
    word_bound, U256,
};

verus! {

/// The declared type of one parameter.
#[derive(Clone, Copy, Debug, PartialEq, Eq, Structural)]
pub enum ParamKind {
    /// `uint256`
    Uint,
    /// `address`
    Address,
    /// `address[]`
    AddressArray,
}

/// A decoded parameter.
#[derive(Clone, Debug)]
pub enum AbiValue {
    Uint(U256),
    Address(Address),
    AddressArray(Vec<Address>),
}

/// What a decoded parameter holds.
pub enum AbiValueView {
    Uint(nat),
    Address(Seq<u8>),
    AddressArray(Seq<Seq<u8>>),
}

pub open spec fn addresses_view(v: Seq<Address>) -> Seq<Seq<u8>> {
    v.map_values(|a: Address| a@)
}

impl View for AbiValue {
    type V = AbiValueView;

    open spec fn view(&self) -> AbiValueView {
        match self {
            AbiValue::Uint(n) => AbiValueView::Uint(n@),
            AbiValue::Address(a) => AbiValueView::Address(a@),
            AbiValue::AddressArray(v) => AbiValueView::AddressArray(addresses_view(v@)),
        }
    }
}

pub open spec fn values_view(v: Seq<AbiValue>) -> Seq<AbiValueView> {
    v.map_values(|x: AbiValue| x@)
}

/// The 32-byte word that starts at `pos`.
pub open spec fn word_at(args: Seq<u8>, pos: int) -> Seq<u8> {
    args.subrange(pos, pos + 32)
}

/// A word that holds an address: twelve zero bytes, then the address.
pub open spec fn is_address_word(w: Seq<u8>) -> bool {
    forall|i: int| 0 <= i < 12 ==> #[trigger] w[i] == 0
}

pub open spec fn word_address(w: Seq<u8>) -> Seq<u8> {
    w.subrange(12, 32)
}

/// Where the array whose head is word `i` starts: its length word.
pub open spec fn array_start(args: Seq<u8>, i: int) -> int {
    be_nat(word_at(args, 32 * i)) as int
}

/// How many elements the array whose head is word `i` declares.
pub open spec fn array_count(args: Seq<u8>, i: int) -> int {
    be_nat(word_at(args, array_start(args, i))) as int
}

/// The element words of the array whose head is word `i` lie within `args`.
pub open spec fn array_fits(args: Seq<u8>, i: int) -> bool {
    &&& array_start(args, i) + 32 <= args.len()
    &&& array_start(args, i) + 32 + 32 * array_count(args, i) <= args.len()
}

pub open spec fn element_word(args: Seq<u8>, i: int, k: int) -> Seq<u8> {
    word_at(args, array_start(args, i) + 32 + 32 * k)
}

/// Every head word is present and every array lies within `args`: the
/// structural length that a schema asks of its arguments.
pub open spec fn fits(kinds: Seq<ParamKind>, args: Seq<u8>) -> bool {
    &&& 32 * kinds.len() <= args.len()
    &&& forall|i: int|
        0 <= i < kinds.len() && #[trigger] kinds[i] == ParamKind::AddressArray ==> array_fits(
            args,
            i,
        )
}

/// Parameter `i` is well formed, given that its head word is present.
pub open spec fn param_ok(kind: ParamKind, args: Seq<u8>, i: int) -> bool {
    match kind {
        ParamKind::Uint => true,
        ParamKind::Address => is_address_word(word_at(args, 32 * i)),
        ParamKind::AddressArray => array_fits(args, i) && forall|k: int|
            0 <= k < array_count(args, i) ==> is_address_word(#[trigger] element_word(args, i, k)),
    }
}

pub open spec fn param_value(kind: ParamKind, args: Seq<u8>, i: int) -> AbiValueView {
    match kind {
        ParamKind::Uint => AbiValueView::Uint(be_nat(word_at(args, 32 * i))),
        ParamKind::Address => AbiValueView::Address(word_address(word_at(args, 32 * i))),
        ParamKind::AddressArray => AbiValueView::AddressArray(
            Seq::new(array_count(args, i) as nat, |k: int| word_address(element_word(args, i, k))),
        ),
    }
}

pub open spec fn decodable(kinds: Seq<ParamKind>, args: Seq<u8>) -> bool {
    &&& 32 * kinds.len() <= args.len()
    &&& forall|i: int| 0 <= i < kinds.len() ==> param_ok(#[trigger] kinds[i], args, i)
}

/// The parameters that `args` holds under the schema `kinds`, if it is well formed.
pub open spec fn decode_spec(kinds: Seq<ParamKind>, args: Seq<u8>) -> Option<Seq<AbiValueView>> {
    if decodable(kinds, args) {
        Some(Seq::new(kinds.len(), |i: int| param_value(kinds[i], args, i)))
    } else {
        None
    }
}

/// Arguments that miss a head word or cut an array short do not decode.
pub proof fn lemma_short_args_do_not_decode(kinds: Seq<ParamKind>, args: Seq<u8>)
    requires
        !fits(kinds, args),
    ensures
        decode_spec(kinds, args) is None,
{
    if decodable(kinds, args) {
        assert forall|i: int|
            0 <= i < kinds.len() && #[trigger] kinds[i] == ParamKind::AddressArray implies array_fits(
            args,
            i,
        ) by {
            assert(param_ok(kinds[i], args, i));
        }
    }
}

/// The number that the word at `pos` spells, where it is at most `args.len()`.
fn read_small(args: &[u8], pos: usize) -> (r: Option<usize>)
    requires
        pos + 32 <= args@.len(),
    ensures
        r is Some <==> be_nat(word_at(args@, pos as int)) <= args@.len(),
        r matches Some(n) ==> n == be_nat(word_at(args@, pos as int)),
{
    let len = args.len();
    let mut acc: u128 = 0;
    let mut big = false;
    let mut j: usize = 0;
    while j < 32
        invariant
            j <= 32,
            pos + 32 <= args@.len(),
            len == args@.len(),
            !big ==> acc == be_nat(args@.subrange(pos as int, pos + j)) && acc <= len,
            big ==> be_nat(args@.subrange(pos as int, pos + j)) > len,
        decreases 32 - j,
    {
        let ghost prev = args@.subrange(pos as int, pos + j);
        let ghost next = args@.subrange(pos as int, pos + j + 1);
        assert(next.drop_last() =~= prev);
        assert(be_nat(next) == be_nat(prev) * 256 + args@[pos + j] as nat);
        if big {
            assert(be_nat(next) > len) by (nonlinear_arith)
                requires
                    be_nat(next) == be_nat(prev) * 256 + args@[pos + j] as nat,
                    be_nat(prev) > len,
            ;
        } else {
            assert(acc * 256 + 255 < 0x1_0000_0000_0000_0000_0000_0000_0000_0000) by (nonlinear_arith)
                requires
                    acc <= len,
                    len <= usize::MAX,
            ;
            acc = acc * 256 + args[pos + j] as u128;
            if acc > len as u128 {
                big = true;
            }
        }
        j = j + 1;
    }
    assert(args@.subrange(pos as int, pos + 32) =~= word_at(args@, pos as int));
    if big {
        None
    } else {
        Some(acc as usize)
    }
}

/// The address in the word at `pos`, if that word holds one.
fn read_address(args: &[u8], pos: usize) -> (r: Option<Address>)
    requires
        pos + 32 <= args@.len(),
    ensures
        r is Some <==> is_address_word(word_at(args@, pos as int)),
        r matches Some(a) ==> a@ == word_address(word_at(args@, pos as int)),
{
    let len = args.len();
    let mut i: usize = 0;
    while i < 12
        invariant
            i <= 12,
            pos + 32 <= args@.len(),
            len == args@.len(),
            forall|k: int| 0 <= k < i ==> #[trigger] word_at(args@, pos as int)[k] == 0,
        decreases 12 - i,
    {
        if args[pos + i] != 0 {
            assert(word_at(args@, pos as int)[i as int] != 0);
            return None;
        }
        i = i + 1;
    }
    let mut bytes = [0u8; 20];
    let mut k: usize = 0;
    while k < 20
        invariant
            k <= 20,
            pos + 32 <= args@.len(),
            len == args@.len(),
            bytes@.len() == 20,
            forall|m: int| 0 <= m < k ==> bytes@[m] == args@[pos + 12 + m],
        decreases 20 - k,
    {
        bytes[k] = args[pos + 12 + k];
        k = k + 1;
    }
    let a = Address { bytes };
    assert(a@ =~= word_address(word_at(args@, pos as int)));
    Some(a)
}

/// The number in the word at `pos`.
fn read_uint(args: &[u8], pos: usize) -> (r: U256)
    requires
        pos + 32 <= args@.len(),
    ensures
        r@ == be_nat(word_at(args@, pos as int)),
{
    let _len = args.len();
    from_big_endian(vstd::slice::slice_subrange(args, pos, pos + 32))
}

/// The address array whose head is word `i`, if it is well formed.
fn read_address_array(args: &[u8], i: usize) -> (r: Option<Vec<Address>>)
    requires
        32 * i + 32 <= args@.len(),
    ensures
        r is Some <==> param_ok(ParamKind::AddressArray, args@, i as int),
        r matches Some(v) ==> AbiValueView::AddressArray(addresses_view(v@)) == param_value(
            ParamKind::AddressArray,
            args@,
            i as int,
        ),
{
    let len = args.len();
    let start = match read_small(args, 32 * i) {
        Some(o) => o,
        None => return None,
    };
    if start > len - 32 {
        return None;
    }
    let count = match read_small(args, start) {
        Some(n) => n,
        None => return None,
    };
    if count > (len - start - 32) / 32 {
        return None;
    }
    assert(32 * count <= len - start - 32) by (nonlinear_arith)
        requires
            count <= (len - start - 32) / 32,
    ;
    let mut out: Vec<Address> = Vec::new();
    let mut k: usize = 0;
    while k < count
        invariant
            k <= count,
            start as int == array_start(args@, i as int),
            count as int == array_count(args@, i as int),
            start + 32 + 32 * count <= len,
            len == args@.len(),
            out@.len() == k,
            forall|m: int| 0 <= m < k ==> is_address_word(#[trigger] element_word(args@, i as int, m)),
            forall|m: int|
                0 <= m < k ==> (#[trigger] out@[m])@ == word_address(element_word(args@, i as int, m)),
        decreases count - k,
    {
        assert(32 * k + 32 <= 32 * count) by (nonlinear_arith)
            requires
                k < count,
        ;
        let pos = start + 32 + 32 * k;
        match read_address(args, pos) {
            Some(a) => out.push(a),
            None => {
                assert(!is_address_word(element_word(args@, i as int, k as int)));
                return None;
            },
        }
        k = k + 1;
    }
    assert(addresses_view(out@) =~= Seq::new(
        array_count(args@, i as int) as nat,
        |m: int| word_address(element_word(args@, i as int, m)),
    ));
    Some(out)
}

/// Decodes `args` under the schema `kinds`; `None` where a head word is
/// missing, an array runs past the end, or an address word has stray bytes.
pub fn decode_params(kinds: &[ParamKind], args: &[u8]) -> (r: Option<Vec<AbiValue>>)
    ensures
        match r {
            None => decode_spec(kinds@, args@) is None,
            Some(v) => decode_spec(kinds@, args@) == Some(values_view(v@)),
        },
{
    let n = kinds.len();
    let len = args.len();
    if n > len / 32 {
        return None;
    }
    assert(32 * n <= args@.len()) by (nonlinear_arith)
        requires
            n <= args@.len() / 32,
    ;
    let mut out: Vec<AbiValue> = Vec::new();
    let mut i: usize = 0;
    while i < n
        invariant
            i <= n,
            n == kinds@.len(),
            32 * n <= args@.len(),
            len == args@.len(),
            out@.len() == i,
            forall|j: int| 0 <= j < i ==> param_ok(#[trigger] kinds@[j], args@, j),
            forall|j: int| 0 <= j < i ==> (#[trigger] out@[j])@ == param_value(kinds@[j], args@, j),
        decreases n - i,
    {
        assert(32 * i + 32 <= 32 * n) by (nonlinear_arith)
            requires
                i < n,
        ;
        let v = match kinds[i] {
            ParamKind::Uint => AbiValue::Uint(read_uint(args, 32 * i)),
            ParamKind::Address => match read_address(args, 32 * i) {
                Some(a) => AbiValue::Address(a),
                None => {
                    assert(!param_ok(kinds@[i as int], args@, i as int));
                    return None;
                },
            },
            ParamKind::AddressArray => match read_address_array(args, i) {
                Some(v) => AbiValue::AddressArray(v),
                None => {
                    assert(!param_ok(kinds@[i as int], args@, i as int));
                    return None;
                },
            },
        };
        out.push(v);
        i = i + 1;
    }
    assert(values_view(out@) =~= Seq::new(kinds@.len(), |j: int| param_value(kinds@[j], args@, j)));
    Some(out)
}

/// The word that holds the number `n`.
pub open spec fn uint_word(n: nat) -> Seq<u8> {
    be_bytes(n, 32)
}

/// The word that holds the address `a`.
pub open spec fn address_word(a: Seq<u8>) -> Seq<u8> {
    Seq::new(12, |i: int| 0u8) + a
}

/// The element words of an address array, one after another.
pub open spec fn address_words(path: Seq<Seq<u8>>) -> Seq<u8> {
    Seq::new(32 * path.len(), |j: int| address_word(path[j / 32])[j % 32])
}

/// The parameters `(uint256 amountIn, uint256 amountOutMin, address[] path,
/// address to, uint256 deadline)`, shared by the router's token-for-token and
/// token-for-native swaps.
pub open spec fn amount_in_schema() -> Seq<ParamKind> {
    seq![
        ParamKind::Uint,
        ParamKind::Uint,
        ParamKind::AddressArray,
        ParamKind::Address,
        ParamKind::Uint,
    ]
}

/// The parameters `(uint256 amountOutMin, address[] path, address to,
/// uint256 deadline)` of a swap that spends the attached native currency.
pub open spec fn native_in_schema() -> Seq<ParamKind> {
    seq![ParamKind::Uint, ParamKind::AddressArray, ParamKind::Address, ParamKind::Uint]
}

/// The schema of the two swaps that take an input amount.
pub fn amount_in_params() -> (r: Vec<ParamKind>)
    ensures
        r@ == amount_in_schema(),
{
    let r = vec![
        ParamKind::Uint,
        ParamKind::Uint,
        ParamKind::AddressArray,
        ParamKind::Address,
        ParamKind::Uint,
    ];
    assert(r@ =~= amount_in_schema());
    r
}

/// The schema of the swap that spends the attached native currency.
pub fn native_in_params() -> (r: Vec<ParamKind>)
    ensures
        r@ == native_in_schema(),
{
    let r = vec![ParamKind::Uint, ParamKind::AddressArray, ParamKind::Address, ParamKind::Uint];
    assert(r@ =~= native_in_schema());
    r
}

/// The arguments of an amount-in swap, laid out as the ABI lays them out:
/// five head words, the array's offset being the size of the heads, then the
/// array's length and its elements.
pub open spec fn amount_in_args(
    amount_in: nat,
    amount_out_min: nat,
    path: Seq<Seq<u8>>,
    to: Seq<u8>,
    deadline: nat,
) -> Seq<u8> {
    uint_word(amount_in) + uint_word(amount_out_min) + uint_word(160) + address_word(to)
        + uint_word(deadline) + uint_word(path.len()) + address_words(path)
}

/// The arguments of an amount-in swap with a path of `n` addresses take
/// `192 + 32 * n` bytes; the encoder counts them in `u32`.
pub open spec fn fits_encoding_size(n: nat) -> bool {
    192 + 32 * n <= 0xffff_ffff
}

/// Relies on `ethers::abi::encode` (ethabi's `encode`): the head words of the
/// tokens in order, a dynamic array's head being the offset of its tail, and
/// the tail holding the array's length and its element words. It sums these
/// sizes in `u32`, so the whole encoding must stay within `u32::MAX` bytes.
#[verifier::external_body]
pub(crate) fn encode_amount_in_args(
    amount_in: U256,
    amount_out_min: U256,
    path: &Vec<Address>,
    to: Address,
    deadline: U256,
) -> (r: Vec<u8>)
    requires
        fits_encoding_size(path@.len()),
    ensures
        r@ == amount_in_args(amount_in@, amount_out_min@, addresses_view(path@), to@, deadline@),
{
    let path = path.iter().map(|a| ethers::abi::Token::Address(ethers::types::H160(a.bytes))).collect();
    ethers::abi::encode(&[
        ethers::abi::Token::Uint(ethers::types::U256(amount_in.limbs)),
        ethers::abi::Token::Uint(ethers::types::U256(amount_out_min.limbs)),
        ethers::abi::Token::Array(path),
        ethers::abi::Token::Address(ethers::types::H160(to.bytes)),
        ethers::abi::Token::Uint(ethers::types::U256(deadline.limbs)),
    ])
}

/// Encoding the arguments of an amount-in swap and decoding them against the
/// same schema gives back the amount, the minimum output, the path, the
/// recipient and the deadline.
pub proof fn lemma_amount_in_round_trip(
    amount_in: nat,
    amount_out_min: nat,
    path: Seq<Seq<u8>>,
    to: Seq<u8>,
    deadline: nat,
)
    requires
        amount_in < word_bound(),
        amount_out_min < word_bound(),
        deadline < word_bound(),
        path.len() < word_bound(),
        to.len() == 20,
        forall|k: int| 0 <= k < path.len() ==> (#[trigger] path[k]).len() == 20,
    ensures
        decode_spec(amount_in_schema(), amount_in_args(amount_in, amount_out_min, path, to, deadline))
            == Some(
            seq![
                AbiValueView::Uint(amount_in),
                AbiValueView::Uint(amount_out_min),
                AbiValueView::AddressArray(path),
                AbiValueView::Address(to),
                AbiValueView::Uint(deadline),
            ],
        ),
{
    let enc = amount_in_args(amount_in, amount_out_min, path, to, deadline);
    let kinds = amount_in_schema();
    let n = path.len();
    lemma_byte_pow_32();
    lemma_be_bytes_len(amount_in, 32);
    lemma_be_bytes_len(amount_out_min, 32);
    lemma_be_bytes_len(160, 32);
    lemma_be_bytes_len(deadline, 32);
    lemma_be_bytes_len(n, 32);
    lemma_be_round_trip(amount_in, 32);
    lemma_be_round_trip(amount_out_min, 32);
    lemma_be_round_trip(160, 32);
    lemma_be_round_trip(deadline, 32);
    lemma_be_round_trip(n, 32);
    assert(enc.len() == 192 + 32 * n);
    assert(word_at(enc, 0) =~= uint_word(amount_in));
    assert(word_at(enc, 32) =~= uint_word(amount_out_min));
    assert(word_at(enc, 64) =~= uint_word(160));
    assert(word_at(enc, 96) =~= address_word(to));
    assert(word_at(enc, 128) =~= uint_word(deadline));
    assert(word_at(enc, 160) =~= uint_word(n));
    assert(array_start(enc, 2) == 160);
    assert(array_count(enc, 2) == n);
    assert forall|k: int| 0 <= k < n implies #[trigger] element_word(enc, 2, k) =~= address_word(
        path[k],
    ) by {
        assert forall|j: int| 0 <= j < 32 implies element_word(enc, 2, k)[j] == address_word(
            path[k],
        )[j] by {
            assert((32 * k + j) / 32 == k && (32 * k + j) % 32 == j) by (nonlinear_arith)
                requires
                    0 <= j < 32,
                    0 <= k,
            ;
            assert(32 * k + j < 32 * n) by (nonlinear_arith)
                requires
                    0 <= j < 32,
                    0 <= k < n,
            ;
            assert(enc[192 + 32 * k + j] == address_words(path)[32 * k + j]);
        }
    }
    assert forall|k: int| 0 <= k < n implies is_address_word(#[trigger] element_word(enc, 2, k))
        && word_address(element_word(enc, 2, k)) =~= path[k] by {
        assert(element_word(enc, 2, k) =~= address_word(path[k]));
    }
    assert(is_address_word(word_at(enc, 96)));
    assert(word_address(word_at(enc, 96)) =~= to);
    assert(Seq::new(n, |k: int| word_address(element_word(enc, 2, k))) =~= path);
    assert(param_ok(kinds[2], enc, 2));
    assert(param_ok(kinds[3], enc, 3));
    assert(decodable(kinds, enc));
    assert(Seq::new(kinds.len(), |i: int| param_value(kinds[i], enc, i)) =~= seq![
        AbiValueView::Uint(amount_in),
        AbiValueView::Uint(amount_out_min),
        AbiValueView::AddressArray(path),
        AbiValueView::Address(to),
        AbiValueView::Uint(deadline),
    ]);
}

} // verus!
