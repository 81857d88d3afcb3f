//! The one asset that a vault takes as deposit.

use crate::asset::{AssetInfo, AssetInfoView};
use vstd::prelude::*;
use vstd::string::StringExecFns;

verus! {

/// The asset that may be deposited.
#[derive(Clone, Debug, PartialEq)]
pub struct DepositInfo {
    pub asset_info: AssetInfo,
}

/// A deposit was offered in another asset than the one that is taken.
#[derive(Clone, Debug, PartialEq)]
pub struct InvalidDepositAsset {
    /// The asset that is taken.
    pub expected: AssetInfo,
    /// The asset that was offered.
    pub got: AssetInfo,
}

/// The text that tells of a deposit in the wrong asset.
pub open spec fn spec_invalid_deposit_text(expected: AssetInfoView, got: AssetInfoView) -> Seq<
    char,
> {
    "Invalid deposit asset. Expected "@ + expected.name() + ", got "@ + got.name() + "."@
}

impl InvalidDepositAsset {
    /// The text shown to the user, naming both assets.
    pub fn to_string(&self) -> (r: String)
        ensures
            r@ == spec_invalid_deposit_text(self.expected@, self.got@),
    {
        let expected = self.expected.name();
        let got = self.got.name();
        String::from_str("Invalid deposit asset. Expected ").concat(expected.as_str()).concat(
            ", got ",
        ).concat(got.as_str()).concat(".")
    }
}

impl DepositInfo {
    /// Checks that `asset_info` is the asset that may be deposited: `Ok`
    /// exactly when it is, otherwise an error that names both.
    pub fn check(&self, asset_info: &AssetInfo) -> (r: Result<(), InvalidDepositAsset>)
        ensures
            r is Ok <==> asset_info@ == self.asset_info@,
            r is Err ==> r->Err_0.expected@ == self.asset_info@ && r->Err_0.got@ == asset_info@,
    {
        if *asset_info == self.asset_info {
            return Ok(());
        }
        Err(InvalidDepositAsset { expected: self.asset_info.copy(), got: asset_info.copy() })
    }
}

} // verus!
