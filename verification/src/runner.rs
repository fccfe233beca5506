//! The extensions that the test runner offers to PVQ programs, and the input
//! it hands to each of the example programs.
use vstd::prelude::*;
use crate::codec::{compact, le_bytes, scale_compact, scale_u32, scale_u64};
use vstd::string::StringSliceAdditionalSpecFns;

verus! {

/// The calls of the fungibles extension, as the runner encodes them.
#[allow(non_camel_case_types)]
pub enum ExtensionFungiblesFunctions {
    total_supply { asset: u32 },
    balance { asset: u32, who: [u8; 32] },
}

impl ExtensionFungiblesFunctions {
    /// The SCALE encoding of the call: the function's index (`0` for
    /// `total_supply`, `1` for `balance`), then its arguments in order.
    pub open spec fn spec_encode(&self) -> Seq<u8> {
        match self {
            ExtensionFungiblesFunctions::total_supply { asset } => seq![0u8] + le_bytes(
                *asset as nat,
                4,
            ),
            ExtensionFungiblesFunctions::balance { asset, who } => seq![1u8] + le_bytes(
                *asset as nat,
                4,
            ) + who@,
        }
    }

    /// Encodes the call.
    pub fn encode(&self) -> (r: Vec<u8>)
        ensures
            r@ == self.spec_encode(),
    {
        match self {
            ExtensionFungiblesFunctions::total_supply { asset } => {
                let mut out: Vec<u8> = Vec::new();
                out.push(0u8);
                let mut a = scale_u32(*asset);
                out.append(&mut a);
                assert(out@ =~= self.spec_encode());
                out
            },
            ExtensionFungiblesFunctions::balance { asset, who } => {
                let mut out: Vec<u8> = Vec::new();
                out.push(1u8);
                let mut a = scale_u32(*asset);
                out.append(&mut a);
                push_array(&mut out, who);
                assert(out@ =~= self.spec_encode());
                out
            },
        }
    }
}

/// Appends the bytes of a 32-byte array, which SCALE encodes as they are.
fn push_array(out: &mut Vec<u8>, a: &[u8; 32])
    ensures
        final(out)@ == old(out)@ + a@,
{
    let mut i: usize = 0;
    while i < 32
        invariant
            0 <= i <= 32,
            a@.len() == 32,
            out@ == old(out)@ + a@.subrange(0, i as int),
        decreases 32 - i,
    {
        out.push(a[i]);
        i = i + 1;
        assert(out@ =~= old(out)@ + a@.subrange(0, i as int));
    }
    assert(a@.subrange(0, 32) =~= a@);
}

/// The extensions that the runner offers: the core extension, which knows
/// the extensions `0` and `1`, and a fungibles extension in which every
/// asset has a total supply and every account a balance of `100`.
pub struct ExtensionsImpl;

impl ExtensionsImpl {
    /// Whether the extension `id` is offered.
    pub fn has_extension(id: u64) -> (r: bool)
        ensures
            r == (id == 0 || id == 1),
    {
        id == 0 || id == 1
    }

    /// The total supply of an asset.
    pub fn total_supply(_asset: u32) -> (r: u64)
        ensures
            r == 100,
    {
        100
    }

    /// The balance of an account in an asset.
    pub fn balance(_asset: u32, _who: [u8; 32]) -> (r: u64)
        ensures
            r == 100,
    {
        100
    }
}

/// `needle` occurs in `hay`.
pub open spec fn occurs_in(hay: Seq<u8>, needle: Seq<u8>) -> bool {
    exists|i: int| 0 <= i && i + needle.len() <= hay.len() && #[trigger] hay.subrange(i, i + needle.len()) == needle
}

/// Whether `needle` occurs in `hay`, as `str::contains` tells for strings.
pub fn occurs(hay: &[u8], needle: &[u8]) -> (r: bool)
    ensures
        r == occurs_in(hay@, needle@),
{
    if needle.len() > hay.len() {
        return false;
    }
    if needle.len() == 0 {
        assert(hay@.subrange(0int, 0int + needle@.len()) =~= needle@);
        assert(occurs_in(hay@, needle@));
        return true;
    }
    let n = hay.len();
    let last = hay.len() - needle.len();
    let mut i: usize = 0;
    while i <= last
        invariant
            n == hay@.len(),
            0 < needle@.len() <= hay@.len(),
            last == hay@.len() - needle@.len(),
            i <= last + 1,
            forall|k: int|
                0 <= k < i ==> #[trigger] hay@.subrange(k, k + needle@.len()) != needle@,
        decreases hay@.len() - i,
    {
        let mut j: usize = 0;
        let mut same = true;
        while j < needle.len()
            invariant
                n == hay@.len(),
                i <= last,
                last == hay@.len() - needle@.len(),
                0 <= j <= needle@.len(),
                same <==> forall|m: int| 0 <= m < j ==> hay@[i + m] == needle@[m],
            decreases needle@.len() - j,
        {
            if hay[i + j] != needle[j] {
                same = false;
            }
            j = j + 1;
        }
        if same {
            assert(hay@.subrange(i as int, i + needle@.len()) =~= needle@);
            return true;
        } else {
            assert(hay@.subrange(i as int, i + needle@.len()) != needle@) by {
                let m = choose|m: int| 0 <= m < needle@.len() && hay@[i + m] != needle@[m];
                assert(hay@.subrange(i as int, i + needle@.len())[m] == hay@[i + m]);
            }
        }
        i = i + 1;
    }
    assert forall|k: int|
        0 <= k && k + needle@.len() <= hay@.len() implies #[trigger] hay@.subrange(
        k,
        k + needle@.len(),
    ) != needle@ by {
        assert(k < i);
    }
    false
}

/// The bytes of `sum-balance`.
pub open spec fn sum_balance_name() -> Seq<u8> {
    seq![115u8, 117u8, 109u8, 45u8, 98u8, 97u8, 108u8, 97u8, 110u8, 99u8, 101u8]
}

/// The bytes of `total-supply`.
pub open spec fn total_supply_name() -> Seq<u8> {
    seq![116u8, 111u8, 116u8, 97u8, 108u8, 45u8, 115u8, 117u8, 112u8, 112u8, 108u8, 121u8]
}

/// The bytes of `transparent-call`.
pub open spec fn transparent_call_name() -> Seq<u8> {
    seq![
        116u8,
        114u8,
        97u8,
        110u8,
        115u8,
        112u8,
        97u8,
        114u8,
        101u8,
        110u8,
        116u8,
        45u8,
        99u8,
        97u8,
        108u8,
        108u8,
    ]
}

/// The identifier of the fungibles extension that the transparent-call
/// program is handed.
pub open spec fn fungibles_extension_id() -> u64 {
    4071833530116166512u64
}

/// `n` copies of the byte `b`.
pub open spec fn repeat_byte(b: u8, n: nat) -> Seq<u8> {
    Seq::new(n, |i: int| b)
}

/// The input for the example program at `path`: for `sum-balance`, the
/// asset `0` and the two accounts of all zeros and of all ones; for
/// `total-supply`, the asset `0`; for `transparent-call`, the fungibles
/// extension's identifier and its `balance` call for the asset `0` and the
/// account of all ones; nothing for any other program. The first name that
/// occurs in the path decides, in that order.
pub open spec fn input_data_for(path: Seq<u8>) -> Seq<u8> {
    if occurs_in(path, sum_balance_name()) {
        le_bytes(0, 4) + compact(2) + repeat_byte(0, 32) + repeat_byte(1, 32)
    } else if occurs_in(path, total_supply_name()) {
        le_bytes(0, 4)
    } else if occurs_in(path, transparent_call_name()) {
        le_bytes(fungibles_extension_id() as nat, 8) + seq![1u8] + le_bytes(0, 4) + repeat_byte(
            1,
            32,
        )
    } else {
        Seq::empty()
    }
}

/// The input that the runner hands to the example program at
/// `program_path`.
pub fn prepare_input_data(program_path: &str) -> (r: Vec<u8>)
    ensures
        r@ == input_data_for(program_path.spec_bytes()),
{
    let path = program_path.as_bytes();
    let sum_balance: [u8; 11] = [115u8, 117u8, 109u8, 45u8, 98u8, 97u8, 108u8, 97u8, 110u8, 99u8, 101u8];
    let total_supply: [u8; 12] = [116u8, 111u8, 116u8, 97u8, 108u8, 45u8, 115u8, 117u8, 112u8, 112u8, 108u8, 121u8];
    let transparent_call: [u8; 16] = [
        116u8,
        114u8,
        97u8,
        110u8,
        115u8,
        112u8,
        97u8,
        114u8,
        101u8,
        110u8,
        116u8,
        45u8,
        99u8,
        97u8,
        108u8,
        108u8,
    ];
    assert(sum_balance@ =~= sum_balance_name());
    assert(total_supply@ =~= total_supply_name());
    assert(transparent_call@ =~= transparent_call_name());
    let mut input_data: Vec<u8> = Vec::new();
    if occurs(path, &sum_balance) {
        let mut asset = scale_u32(0);
        input_data.append(&mut asset);
        let mut len = scale_compact(2);
        input_data.append(&mut len);
        let zeros = [0u8; 32];
        let ones = [1u8; 32];
        push_array(&mut input_data, &zeros);
        push_array(&mut input_data, &ones);
        assert(zeros@ =~= repeat_byte(0, 32));
        assert(ones@ =~= repeat_byte(1, 32));
    } else if occurs(path, &total_supply) {
        let mut asset = scale_u32(0);
        input_data.append(&mut asset);
    } else if occurs(path, &transparent_call) {
        let mut id = scale_u64(4071833530116166512u64);
        input_data.append(&mut id);
        let ones = [1u8; 32];
        assert(ones@ =~= repeat_byte(1, 32));
        let call = ExtensionFungiblesFunctions::balance { asset: 0, who: ones };
        let mut encoded = call.encode();
        input_data.append(&mut encoded);
    }
    assert(input_data@ =~= input_data_for(program_path.spec_bytes()));
    input_data
}

} // verus!
