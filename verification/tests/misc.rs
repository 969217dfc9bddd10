use dmodman::api::NxmUrl;
use dmodman::lookup::{check_dl_integrity, check_md5_game, Md5SearchError};
use dmodman::messages::Messages;
use dmodman::nxm_socket::{get_socket_path, is_nxm_message, socket_step, SocketAction, SocketOutcome, SocketStage};
use dmodman::request::{api_url, dl_link_endpoint, file_list_endpoint, md5_search_endpoint, mod_info_endpoint, user_agent};

#[test]
fn messages_are_numbered() {
    let mut m = Messages::new(true);
    assert_eq!(m.push("first".to_string()), None);
    assert_eq!(m.push("second".to_string()), None);
    assert_eq!(m.messages, vec!["0: first".to_string(), "1: second".to_string()]);
    assert!(m.has_changed);
    m.remove(0);
    assert_eq!(m.messages, vec!["1: second".to_string()]);
    let mut quiet = Messages::new(false);
    assert_eq!(quiet.push("x".to_string()), Some("x".to_string()));
    assert!(quiet.messages.is_empty());
}

#[test]
fn api_endpoints() {
    assert_eq!(md5_search_endpoint("morrowind", "abc"), "games/morrowind/mods/md5_search/abc.json");
    let nxm = NxmUrl { domain_name: "morrowind".to_string(), mod_id: 46599, file_id: 1000014198, query: "key=k&expires=1".to_string() };
    assert_eq!(dl_link_endpoint(&nxm), "games/morrowind/mods/46599/files/1000014198/download_link.json?key=k&expires=1");
    assert_eq!(mod_info_endpoint("morrowind", 46599), "games/morrowind/mods/46599.json");
    assert_eq!(file_list_endpoint("morrowind", 46599), "games/morrowind/mods/46599/files.json");
    assert_eq!(api_url("games/morrowind/mods/46599.json"), "https://api.nexusmods.com/v1/games/morrowind/mods/46599.json");
    assert_eq!(user_agent("0.1.0"), "dmodman 0.1.0");
}

#[test]
fn download_checks() {
    assert_eq!(check_dl_integrity(82041, 82041), Ok(()));
    assert_eq!(check_dl_integrity(82041, 1), Err(Md5SearchError::HashMismatch));
    assert_eq!(check_md5_game("morrowind", "morrowind"), Ok(()));
    assert_eq!(check_md5_game("morrowind", "skyrim"), Err(Md5SearchError::GameMismatch));
}

#[test]
fn socket_messages() {
    assert_eq!(get_socket_path(1000), "/run/user/1000/dmodman.socket");
    assert!(is_nxm_message("nxm://morrowind/mods/1"));
    assert!(!is_nxm_message("http://x"));
}

#[test]
fn socket_takeover_steps() {
    assert_eq!(socket_step(SocketStage::FirstBind, SocketOutcome::Done), (SocketStage::FirstBind, SocketAction::Listen));
    assert_eq!(socket_step(SocketStage::FirstBind, SocketOutcome::AddrInUse), (SocketStage::Probing, SocketAction::Connect));
    assert_eq!(socket_step(SocketStage::FirstBind, SocketOutcome::OtherError), (SocketStage::FirstBind, SocketAction::GiveUp));
    assert_eq!(socket_step(SocketStage::FirstBind, SocketOutcome::ConnectionRefused), (SocketStage::FirstBind, SocketAction::GiveUp));
    assert_eq!(socket_step(SocketStage::Probing, SocketOutcome::Done), (SocketStage::Probing, SocketAction::AnotherInstance));
    assert_eq!(socket_step(SocketStage::Probing, SocketOutcome::ConnectionRefused), (SocketStage::Removing, SocketAction::RemoveStale));
    assert_eq!(socket_step(SocketStage::Probing, SocketOutcome::OtherError), (SocketStage::Probing, SocketAction::Abort));
    assert_eq!(socket_step(SocketStage::Removing, SocketOutcome::Done), (SocketStage::SecondBind, SocketAction::Bind));
    assert_eq!(socket_step(SocketStage::Removing, SocketOutcome::OtherError), (SocketStage::Removing, SocketAction::GiveUp));
    assert_eq!(socket_step(SocketStage::SecondBind, SocketOutcome::Done), (SocketStage::SecondBind, SocketAction::Listen));
    assert_eq!(socket_step(SocketStage::SecondBind, SocketOutcome::AddrInUse), (SocketStage::SecondBind, SocketAction::GiveUp));
}
