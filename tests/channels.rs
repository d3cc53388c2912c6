use stausee_mnemonic::channels::{Channel, ChannelId, Channels, WindowId};
use stausee_mnemonic::ipc::CallbackFn;

const ID: u128 = 0x0102_0304_0506_0708_090a_0b0c_0d0e_0f10;
const ID_JSON: &str = "[16909060,1286,1800,[9,10,11,12,13,14,15,16]]";

fn script(json: &str) -> String {
    format!("window.ipcHandler._respondChannelMessage({});", json)
}

#[test]
fn accept_carries_token_and_uuid_fields() {
    let channel = Channel::new(ChannelId(ID), WindowId(4));
    let d = channel.accept_request(5);
    assert_eq!(d.window, WindowId(4));
    assert_eq!(
        d.script,
        script(&format!(r#"{{"acceptId":{},"token":5,"type":"accept"}}"#, ID_JSON))
    );
}

#[test]
fn message_carries_data_and_null_error() {
    let channel = Channel::new(ChannelId(ID), WindowId(1));
    let d = channel.send_message("\"focus\"");
    assert_eq!(
        d.script,
        script(&format!(
            r#"{{"channelId":{},"data":"focus","error":null,"type":"message"}}"#,
            ID_JSON
        ))
    );
}

#[test]
fn error_carries_null_data() {
    let channel = Channel::new(ChannelId(ID), WindowId(1));
    let d = channel.send_error("{\"code\":3}");
    assert_eq!(
        d.script,
        script(&format!(
            r#"{{"channelId":{},"data":null,"error":{{"code":3}},"type":"message"}}"#,
            ID_JSON
        ))
    );
}

#[test]
fn close_names_the_channel() {
    let channel = Channel::new(ChannelId(ID), WindowId(2));
    let d = channel.send_close();
    assert_eq!(d.window, WindowId(2));
    assert_eq!(d.script, script(&format!(r#"{{"channelId":{},"type":"close"}}"#, ID_JSON)));
}

#[test]
fn zero_and_max_uuid_fields() {
    let zero = Channel::new(ChannelId(0), WindowId(1)).send_close();
    assert_eq!(zero.script, script(r#"{"channelId":[0,0,0,[0,0,0,0,0,0,0,0]],"type":"close"}"#));
    let max = Channel::new(ChannelId(u128::MAX), WindowId(1)).send_close();
    assert_eq!(
        max.script,
        script(r#"{"channelId":[4294967295,65535,65535,[255,255,255,255,255,255,255,255]],"type":"close"}"#)
    );
}

#[test]
fn empty_registry_has_no_channels() {
    let channels = Channels::new();
    assert!(channels.get_channel("x").is_none());
    assert!(channels.get_channel_by_id(ChannelId(1)).is_none());
}

#[test]
fn first_open_only_accepts() {
    let mut channels = Channels::new();
    let ds = channels.open_channel_with_id("x", WindowId(1), CallbackFn(9), ChannelId(1));
    assert_eq!(ds.len(), 1);
    assert_eq!(ds[0].window, WindowId(1));
    assert_eq!(
        ds[0].script,
        script(r#"{"acceptId":[0,0,0,[0,0,0,0,0,0,0,1]],"token":9,"type":"accept"}"#)
    );
    assert_eq!(channels.get_channel("x"), Some(Channel { id: ChannelId(1), window: WindowId(1) }));
}

#[test]
fn reopen_closes_the_first_channel_then_accepts() {
    let mut channels = Channels::new();
    channels.open_channel_with_id("x", WindowId(1), CallbackFn(9), ChannelId(1));
    let ds = channels.open_channel_with_id("x", WindowId(2), CallbackFn(10), ChannelId(2));
    assert_eq!(ds.len(), 2);
    assert_eq!(ds[0].window, WindowId(1));
    assert_eq!(ds[0].script, script(r#"{"channelId":[0,0,0,[0,0,0,0,0,0,0,1]],"type":"close"}"#));
    assert_eq!(ds[1].window, WindowId(2));
    assert_eq!(
        ds[1].script,
        script(r#"{"acceptId":[0,0,0,[0,0,0,0,0,0,0,2]],"token":10,"type":"accept"}"#)
    );
    let now = channels.get_channel("x").unwrap();
    assert_eq!(now.id, ChannelId(2));
    assert_ne!(now.id, ChannelId(1));
    assert!(channels.get_channel_by_id(ChannelId(1)).is_none());
    assert_eq!(channels.get_channel_by_id(ChannelId(2)), Some(now));
}

#[test]
fn names_are_independent() {
    let mut channels = Channels::new();
    channels.open_channel_with_id("a", WindowId(1), CallbackFn(1), ChannelId(10));
    let ds = channels.open_channel_with_id("b", WindowId(1), CallbackFn(2), ChannelId(11));
    assert_eq!(ds.len(), 1);
    assert_eq!(channels.get_channel("a").unwrap().id, ChannelId(10));
    assert_eq!(channels.get_channel("b").unwrap().id, ChannelId(11));
    assert_eq!(channels.get_channel_by_id(ChannelId(11)).unwrap().id, ChannelId(11));
}

#[test]
fn random_open_mints_a_fresh_uuid() {
    let mut channels = Channels::new();
    channels.open_channel("x", WindowId(1), CallbackFn(1));
    let first = channels.get_channel("x").unwrap().id;
    let ds = channels.open_channel("x", WindowId(1), CallbackFn(2));
    let second = channels.get_channel("x").unwrap().id;
    assert_ne!(first, second);
    assert_eq!(ds.len(), 2);
    // A version 4 UUID has 4 in the high nibble of its seventh byte.
    assert_eq!((second.0 >> 76) & 0xf, 4);
}

#[test]
fn fresh_ids_avoid_replaced_channels() {
    let mut channels = Channels::new();
    channels.open_channel_with_id("x", WindowId(1), CallbackFn(1), ChannelId(5));
    channels.open_channel_with_id("x", WindowId(1), CallbackFn(2), ChannelId(6));
    let fresh = channels.fresh_channel_id();
    assert_ne!(fresh, ChannelId(5));
    assert_ne!(fresh, ChannelId(6));
    channels.open_channel("y", WindowId(1), CallbackFn(3));
    let y = channels.get_channel("y").unwrap().id;
    assert_ne!(y, ChannelId(5));
    assert_ne!(y, ChannelId(6));
}
