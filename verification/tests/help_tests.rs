use getopt_rs::help::builder::{CmdOptMut, CmdPosMut};
use getopt_rs::help::store::CmdStore;

#[test]
fn pos_commit_adds_the_built_non_option() {
    let mut c = CmdStore::default();
    c.set_name("find");
    c.set_hint("hint of find");
    {
        let mut m = CmdPosMut::new(&mut c, "file");
        m.set_index(1).set_optional(true).set_hint("h");
        m.commit();
    }
    assert_eq!(c.pos_store.len(), 1);
    let p = &c.pos_store[0];
    assert_eq!(p.name, "file");
    assert_eq!(p.index, 1);
    assert!(p.optional);
    assert_eq!(p.hint, "h");
    assert_eq!(p.help, "");
    assert_eq!(c.name, "find");
    assert_eq!(c.hint, "hint of find");
    assert_eq!(c.opt_store.len(), 0);
}

#[test]
fn opt_commit_adds_the_built_option() {
    let mut c = CmdStore::default();
    c.set_name("find");
    {
        let mut m = CmdOptMut::new(&mut c, "-name");
        m.set_help("the name to look for").set_hint("-name <str>");
        m.commit();
    }
    assert_eq!(c.opt_store.len(), 1);
    let o = &c.opt_store[0];
    assert_eq!(o.name, "-name");
    assert_eq!(o.hint, "-name <str>");
    assert_eq!(o.help, "the name to look for");
    assert!(!o.optional);
    assert_eq!(c.pos_store.len(), 0);
    assert_eq!(c.name, "find");
}
