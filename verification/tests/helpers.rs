use white_whale::anchor::AnchorMsg;
use white_whale::keys;
use white_whale::luna_vault::luna_unbond_handler::msg::{CallbackMsg, Cw20HookMsg, MigrateMsg};
use white_whale::luna_vault::luna_unbond_handler::serde_option::{rendered_or_none, serde_option};
use white_whale::profit_check::msg::{HandleMsg, InitMsg};
use white_whale::treasury::dapp_base::msg::{
    BaseExecuteMsg, BaseInstantiateMsg, BaseQueryMsg, BaseStateResponse,
};

#[test]
fn serde_option_of_something() {
    assert_eq!(serde_option(Some(42u64)), "42");
    assert_eq!(serde_option(Some("terra1xyz")), "terra1xyz");
    assert_eq!(serde_option(Some("none".to_string())), "none");
    assert_eq!(serde_option(Some(-7i32)), "-7");
    assert_eq!(serde_option(Some(true)), "true");
    assert_eq!(serde_option(Some(String::new())), "");
}

#[test]
fn serde_option_of_nothing() {
    assert_eq!(serde_option::<u64>(None), "none");
    assert_eq!(serde_option::<String>(None), "none");
}

#[test]
fn rendered_text_is_kept() {
    assert_eq!(rendered_or_none(Some("1642402274".to_string())), "1642402274");
    assert_eq!(rendered_or_none(Some(String::new())), "");
    assert_eq!(rendered_or_none(None), "none");
}

#[test]
fn concat_puts_namespace_before_key() {
    assert_eq!(keys::concat(b"\x00\x07balance", b"addr"), b"\x00\x07balanceaddr".to_vec());
    assert_eq!(keys::concat(b"", b"key"), b"key".to_vec());
    assert_eq!(keys::concat(b"ns", b""), b"ns".to_vec());
    assert_eq!(keys::concat(b"", b""), Vec::<u8>::new());
    assert_eq!(keys::concat(&[1, 2], &[3]), vec![1, 2, 3]);
    assert_ne!(keys::concat(&[3], &[1, 2]), vec![1, 2, 3]);
}

#[test]
fn messages_compare_by_content() {
    assert_eq!(AnchorMsg::DepositStable {}, AnchorMsg::DepositStable {});
    assert_ne!(AnchorMsg::Unbond {}, AnchorMsg::WithdrawUnbonded {});
    assert_eq!(Cw20HookMsg::Unbond {}, Cw20HookMsg::Unbond {});
    assert_eq!(MigrateMsg {}, MigrateMsg {});
    assert_ne!(
        CallbackMsg::AfterWithdraw {
            triggered_by_addr: "a".to_string()
        },
        CallbackMsg::AfterWithdraw {
            triggered_by_addr: "b".to_string()
        }
    );
    assert_ne!(
        HandleMsg::BeforeTrade {},
        HandleMsg::SetVault {
            vault_address: "vault".to_string()
        }
    );
    let init = InitMsg {
        vault_address: "vault".to_string(),
        denom: "uusd".to_string(),
    };
    assert_eq!(init.clone(), init);
    let base = BaseInstantiateMsg {
        treasury_address: "treasury".to_string(),
        trader: "trader".to_string(),
        memory_addr: "memory".to_string(),
    };
    let state = BaseStateResponse {
        treasury_address: base.treasury_address.clone(),
        trader: base.trader.clone(),
        memory_address: base.memory_addr.clone(),
    };
    assert_eq!(state.trader, "trader");
    assert_ne!(
        BaseExecuteMsg::SetAdmin {
            admin: "a".to_string()
        },
        BaseExecuteMsg::UpdateConfig {
            treasury_address: None,
            trader: Some("a".to_string()),
            memory: None
        }
    );
    assert_eq!(BaseQueryMsg::Config {}, BaseQueryMsg::Config {});
}
