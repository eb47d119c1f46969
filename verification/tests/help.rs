use fs_snapshot::{Ctx, Help, Layout};

#[test]
fn footer_falls_back_to_layer_help() {
    let cx = Ctx { help: Help { layer: b"manager".to_vec(), keyword: None } };
    let layout = Layout::new(&cx);
    assert_eq!(layout.footer_label(), b"manager.help".to_vec());
    assert!(cx.help.keyword().is_none());
}

#[test]
fn footer_shows_keyword() {
    let cx = Ctx { help: Help { layer: b"tasks".to_vec(), keyword: Some(b"open".to_vec()) } };
    let layout = Layout::new(&cx);
    assert_eq!(layout.footer_label(), b"open".to_vec());
    assert_eq!(cx.help.keyword().unwrap(), b"open".to_vec());
}
