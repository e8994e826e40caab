use vstd::prelude::*;

verus! {

/// Bit that marks a hardened BIP-32 derivation step.
pub const HARDENED: u32 = 0x8000_0000;

/// Highest account number accepted in an address keypath (100 accounts).
pub const ACCOUNT_MAX: u32 = 99;

/// The xpub keypath m/44'/60'/0'/0 (Ethereum mainnet).
pub open spec fn mainnet_xpub() -> Seq<u32> {
    seq![(44 + HARDENED) as u32, (60 + HARDENED) as u32, HARDENED, 0u32]
}

/// The xpub keypath m/44'/1'/0'/0 (testnets).
pub open spec fn testnet_xpub() -> Seq<u32> {
    seq![(44 + HARDENED) as u32, (1 + HARDENED) as u32, HARDENED, 0u32]
}

/// A keypath is a valid xpub keypath when it is one of the two whitelisted paths.
pub open spec fn valid_xpub(keypath: Seq<u32>) -> bool {
    keypath == mainnet_xpub() || keypath == testnet_xpub()
}

/// A valid address keypath is a valid xpub keypath followed by an account of at most
/// `ACCOUNT_MAX`.
pub open spec fn valid_address(keypath: Seq<u32>) -> bool {
    &&& keypath.len() == 5
    &&& valid_xpub(keypath.take(4))
    &&& keypath[4] <= ACCOUNT_MAX
}

/// Does limit checks the keypath, whitelisting bip44 purpose, account and change.
/// Only allows the well-known xpubs of m'/44'/60'/0'/0 and m'/44'/1'/0'/0 for now.
/// Since ethereum doesn't use the "change" path part it is always 0 and has become part of the
/// xpub keypath.
/// Returns true if the keypath is valid, false if it is invalid.
pub fn is_valid_keypath_xpub(keypath: &[u32]) -> (r: bool)
    ensures
        r == valid_xpub(keypath@),
{
    if keypath.len() != 4 {
        return false;
    }
    let purpose = keypath[0] == 44 + HARDENED && keypath[2] == HARDENED && keypath[3] == 0;
    let r = purpose && (keypath[1] == 60 + HARDENED || keypath[1] == 1 + HARDENED);
    proof {
        if r {
            if keypath[1] == 60 + HARDENED {
                assert(keypath@ =~= mainnet_xpub());
            } else {
                assert(keypath@ =~= testnet_xpub());
            }
        } else {
            if keypath@ == mainnet_xpub() {
                assert(keypath@[1] == 60 + HARDENED);
            }
            if keypath@ == testnet_xpub() {
                assert(keypath@[1] == 1 + HARDENED);
            }
        }
    }
    r
}

/// Does limit checks the keypath, whitelisting bip44 purpose, account and change.
/// Returns true if the keypath is valid, false if it is invalid.
pub fn is_valid_keypath_address(keypath: &[u32]) -> (r: bool)
    ensures
        r == valid_address(keypath@),
{
    if keypath.len() != 5 {
        return false;
    }
    let prefix = vstd::slice::slice_subrange(keypath, 0, 4);
    assert(prefix@ =~= keypath@.take(4));
    if !is_valid_keypath_xpub(prefix) {
        return false;
    }
    if keypath[4] > ACCOUNT_MAX {
        return false;
    }
    true
}

} // verus!
