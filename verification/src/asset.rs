//! Kinds of assets.

use vstd::prelude::*;
use vstd::std_specs::cmp::PartialEqSpecImpl;

verus! {

/// What an asset is: a token kept by a contract, or a native coin.
#[derive(Clone, Debug)]
pub enum AssetInfo {
    /// A token, known by the address of its contract.
    Token { contract_addr: String },
    /// A native coin, known by its denomination.
    NativeToken { denom: String },
}

/// An [`AssetInfo`] as a mathematical value.
pub ghost enum AssetInfoView {
    Token { contract_addr: Seq<char> },
    NativeToken { denom: Seq<char> },
}

impl View for AssetInfo {
    type V = AssetInfoView;

    open spec fn view(&self) -> AssetInfoView {
        match *self {
            AssetInfo::Token { contract_addr } => AssetInfoView::Token {
                contract_addr: contract_addr@,
            },
            AssetInfo::NativeToken { denom } => AssetInfoView::NativeToken { denom: denom@ },
        }
    }
}

impl AssetInfoView {
    /// The name by which the asset goes: the contract address of a token,
    /// the denomination of a native coin.
    pub open spec fn name(self) -> Seq<char> {
        match self {
            AssetInfoView::Token { contract_addr } => contract_addr,
            AssetInfoView::NativeToken { denom } => denom,
        }
    }
}

impl PartialEq for AssetInfo {
    /// Two assets are equal when they are of the same kind and go by the
    /// same name.
    fn eq(&self, other: &AssetInfo) -> (r: bool) {
        match self {
            AssetInfo::Token { contract_addr } => match other {
                AssetInfo::Token { contract_addr: other_addr } => *contract_addr == *other_addr,
                AssetInfo::NativeToken { .. } => false,
            },
            AssetInfo::NativeToken { denom } => match other {
                AssetInfo::NativeToken { denom: other_denom } => *denom == *other_denom,
                AssetInfo::Token { .. } => false,
            },
        }
    }
}

impl PartialEqSpecImpl for AssetInfo {
    open spec fn obeys_eq_spec() -> bool {
        true
    }

    open spec fn eq_spec(&self, other: &AssetInfo) -> bool {
        self@ == other@
    }
}

impl AssetInfo {
    /// The name by which the asset goes.
    pub fn name(&self) -> (r: String)
        ensures
            r@ == self@.name(),
    {
        match self {
            AssetInfo::Token { contract_addr } => contract_addr.clone(),
            AssetInfo::NativeToken { denom } => denom.clone(),
        }
    }

    /// A second value for the same asset.
    pub fn copy(&self) -> (r: AssetInfo)
        ensures
            r@ == self@,
    {
        match self {
            AssetInfo::Token { contract_addr } => AssetInfo::Token {
                contract_addr: contract_addr.clone(),
            },
            AssetInfo::NativeToken { denom } => AssetInfo::NativeToken { denom: denom.clone() },
        }
    }
}

} // verus!
