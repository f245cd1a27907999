use vstd::prelude::*;

use super::store::{CmdStore, OptStore, PosStore, SecStore};

verus! {

/// A help generator: it keeps the help of sections, commands and their
/// non-options and options, and writes the help text.
pub trait Generator: Sized {
    fn new_sec(&mut self, sec: &str) -> SectionMut<'_, Self>;

    fn new_cmd(&mut self, cmd: &str) -> CmdMut<'_, Self>;

    fn new_pos(&mut self, cmd: &str, pos: &str) -> CmdOptMut<'_>;

    fn new_opt(&mut self, cmd: &str, opt: &str) -> CmdOptMut<'_>;

    fn attach_cmd(&mut self, sec: &str, cmd: &str);

    /// The sections handed to the generator, in the order they came.
    spec fn spec_secs(&self) -> Seq<SecStore>;

    /// The commands handed to the generator, in the order they came.
    spec fn spec_cmds(&self) -> Seq<CmdStore>;

    /// Take the help of a section.
    fn add_sec(&mut self, sec: SecStore)
        ensures
            final(self).spec_secs() == old(self).spec_secs().push(sec),
            final(self).spec_cmds() == old(self).spec_cmds(),
    ;

    /// Take the help of a command.
    fn add_cmd(&mut self, cmd: CmdStore)
        ensures
            final(self).spec_cmds() == old(self).spec_cmds().push(cmd),
            final(self).spec_secs() == old(self).spec_secs(),
    ;

    fn add_pos(&mut self, cmd: &str, pos: PosStore);

    fn add_opt(&mut self, cmd: &str, opt: OptStore);

    fn get_sec(&self, sec: &str) -> Option<&SecStore>;

    fn get_cmd(&self, cmd: &str) -> Option<&CmdStore>;

    fn get_pos(&self, pos: &str) -> Option<&PosStore>;

    fn get_opt(&self, opt: &str) -> Option<&OptStore>;

    fn set_simple_style(&mut self, simple: bool);

    fn get_global(&self) -> &CmdStore;

    fn gen_cmd_help(&self, cmd: &str) -> String;

    fn gen_help(&self) -> String;
}

/// Builds the help of a section, and hands it to the generator.
pub struct SectionMut<'a, G: Generator> {
    pub g: &'a mut G,
    pub s: SecStore,
}

impl<'a, G: Generator> SectionMut<'a, G> {
    pub fn new(g: &'a mut G, name: &str) -> (r: Self)
        ensures
            r.s.name@ == name@,
            r.s.hint@.len() == 0,
            r.s.help@.len() == 0,
            r.s.cmd_attach@.len() == 0,
            *r.g == *old(g),
            *final(g) == *final(r.g),
    {
        let mut st = SecStore::default();
        st.set_name(name);
        SectionMut { g, s: st }
    }

    pub fn set_name(&mut self, name: &str) -> (r: &mut Self)
        ensures
            r.s.name@ == name@,
            r.s == (SecStore { name: r.s.name, ..old(self).s }),
            r.g == old(self).g,
            *final(self) == *final(r),
    {
        self.s.set_name(name);
        self
    }

    pub fn set_hint(&mut self, hint: &str) -> (r: &mut Self)
        ensures
            r.s.hint@ == hint@,
            r.s == (SecStore { hint: r.s.hint, ..old(self).s }),
            r.g == old(self).g,
            *final(self) == *final(r),
    {
        self.s.set_hint(hint);
        self
    }

    pub fn set_help(&mut self, help: &str) -> (r: &mut Self)
        ensures
            r.s.help@ == help@,
            r.s == (SecStore { help: r.s.help, ..old(self).s }),
            r.g == old(self).g,
            *final(self) == *final(r),
    {
        self.s.set_help(help);
        self
    }

    pub fn attach_cmd(&mut self, cmd: &str) -> (r: &mut Self)
        ensures
            r.s.cmd_attach@.len() == old(self).s.cmd_attach@.len() + 1,
            r.s.cmd_attach@.last()@ == cmd@,
            r.s.cmd_attach@.drop_last() == old(self).s.cmd_attach@,
            r.s == (SecStore { cmd_attach: r.s.cmd_attach, ..old(self).s }),
            r.g == old(self).g,
            *final(self) == *final(r),
    {
        self.s.attach_cmd(cmd);
        self
    }

    /// Hand a copy of the section to the generator.
    pub fn commit(&mut self)
        ensures
            final(self).s == old(self).s,
            *final(final(self).g) == *final(old(self).g),
            final(self).g.spec_secs().len() == old(self).g.spec_secs().len() + 1,
            final(self).g.spec_secs().drop_last() == old(self).g.spec_secs(),
            final(self).g.spec_secs().last().same_as(old(self).s),
            final(self).g.spec_cmds() == old(self).g.spec_cmds(),
    {
        let s = self.s.copied();
        self.g.add_sec(s);
    }
}

/// Builds the help of a command, and hands it to the generator.
pub struct CmdMut<'a, G: Generator> {
    pub g: &'a mut G,
    pub c: CmdStore,
}

impl<'a, G: Generator> CmdMut<'a, G> {
    pub fn new(g: &'a mut G, name: &str) -> (r: Self)
        ensures
            r.c.name@ == name@,
            r.c.usage@.len() == 0,
            r.c.footer@.len() == 0,
            r.c.header@.len() == 0,
            r.c.hint@.len() == 0,
            r.c.help@.len() == 0,
            r.c.pos_store@.len() == 0,
            r.c.opt_store@.len() == 0,
            *r.g == *old(g),
            *final(g) == *final(r.g),
    {
        let mut st = CmdStore::default();
        st.set_name(name);
        CmdMut { g, c: st }
    }

    pub fn set_name(&mut self, name: &str) -> (r: &mut Self)
        ensures
            r.c.name@ == name@,
            r.c == (CmdStore { name: r.c.name, ..old(self).c }),
            r.g == old(self).g,
            *final(self) == *final(r),
    {
        self.c.set_name(name);
        self
    }

    pub fn set_usage(&mut self, usage: &str) -> (r: &mut Self)
        ensures
            r.c.usage@ == usage@,
            r.c == (CmdStore { usage: r.c.usage, ..old(self).c }),
            r.g == old(self).g,
            *final(self) == *final(r),
    {
        self.c.set_usage(usage);
        self
    }

    pub fn set_footer(&mut self, footer: &str) -> (r: &mut Self)
        ensures
            r.c.footer@ == footer@,
            r.c == (CmdStore { footer: r.c.footer, ..old(self).c }),
            r.g == old(self).g,
            *final(self) == *final(r),
    {
        self.c.set_footer(footer);
        self
    }

    pub fn set_header(&mut self, header: &str) -> (r: &mut Self)
        ensures
            r.c.header@ == header@,
            r.c == (CmdStore { header: r.c.header, ..old(self).c }),
            r.g == old(self).g,
            *final(self) == *final(r),
    {
        self.c.set_header(header);
        self
    }

    pub fn set_hint(&mut self, hint: &str) -> (r: &mut Self)
        ensures
            r.c.hint@ == hint@,
            r.c == (CmdStore { hint: r.c.hint, ..old(self).c }),
            r.g == old(self).g,
            *final(self) == *final(r),
    {
        self.c.set_hint(hint);
        self
    }

    pub fn set_help(&mut self, help: &str) -> (r: &mut Self)
        ensures
            r.c.help@ == help@,
            r.c == (CmdStore { help: r.c.help, ..old(self).c }),
            r.g == old(self).g,
            *final(self) == *final(r),
    {
        self.c.set_help(help);
        self
    }

    pub fn add_pos(&mut self, pos: PosStore) -> (r: &mut Self)
        ensures
            r.c.pos_store@ == old(self).c.pos_store@.push(pos),
            r.c == (CmdStore { pos_store: r.c.pos_store, ..old(self).c }),
            r.g == old(self).g,
            *final(self) == *final(r),
    {
        self.c.add_pos(pos);
        self
    }

    pub fn add_opt(&mut self, opt: OptStore) -> (r: &mut Self)
        ensures
            r.c.opt_store@ == old(self).c.opt_store@.push(opt),
            r.c == (CmdStore { opt_store: r.c.opt_store, ..old(self).c }),
            r.g == old(self).g,
            *final(self) == *final(r),
    {
        self.c.add_opt(opt);
        self
    }

    /// Start the help of a non-option of the command.
    pub fn new_pos(&mut self, pos: &str) -> (r: CmdPosMut<'_>)
        ensures
            r.p.name@ == pos@,
            r.p.hint@.len() == 0,
            r.p.help@.len() == 0,
            r.p.index == 0,
            !r.p.optional,
            *r.c == old(self).c,
            *final(r.c) == final(self).c,
            *final(self).g == *old(self).g,
    {
        CmdPosMut::new(&mut self.c, pos)
    }

    /// Start the help of an option of the command.
    pub fn new_opt(&mut self, opt: &str) -> (r: CmdOptMut<'_>)
        ensures
            r.o.name@ == opt@,
            r.o.hint@.len() == 0,
            r.o.help@.len() == 0,
            !r.o.optional,
            *r.c == old(self).c,
            *final(r.c) == final(self).c,
            *final(self).g == *old(self).g,
    {
        CmdOptMut::new(&mut self.c, opt)
    }

    /// Hand a copy of the command to the generator.
    pub fn commit(&mut self)
        ensures
            final(self).c == old(self).c,
            *final(final(self).g) == *final(old(self).g),
            final(self).g.spec_cmds().len() == old(self).g.spec_cmds().len() + 1,
            final(self).g.spec_cmds().drop_last() == old(self).g.spec_cmds(),
            final(self).g.spec_cmds().last().same_as(old(self).c),
            final(self).g.spec_secs() == old(self).g.spec_secs(),
    {
        let c = self.c.copied();
        self.g.add_cmd(c);
    }
}

/// Builds the help of a non-option, and adds it to a command.
pub struct CmdPosMut<'a> {
    pub c: &'a mut CmdStore,
    pub p: PosStore,
}

impl<'a> CmdPosMut<'a> {
    pub fn new(c: &'a mut CmdStore, name: &str) -> (r: Self)
        ensures
            r.p.name@ == name@,
            r.p.hint@.len() == 0,
            r.p.help@.len() == 0,
            r.p.index == 0,
            !r.p.optional,
            *r.c == *old(c),
            *final(c) == *final(r.c),
    {
        let mut st = PosStore::default();
        st.set_name(name);
        CmdPosMut { c, p: st }
    }

    pub fn set_name(&mut self, name: &str) -> (r: &mut Self)
        ensures
            r.p.name@ == name@,
            r.p == (PosStore { name: r.p.name, ..old(self).p }),
            r.c == old(self).c,
            *final(self) == *final(r),
    {
        self.p.set_name(name);
        self
    }

    pub fn set_hint(&mut self, hint: &str) -> (r: &mut Self)
        ensures
            r.p.hint@ == hint@,
            r.p == (PosStore { hint: r.p.hint, ..old(self).p }),
            r.c == old(self).c,
            *final(self) == *final(r),
    {
        self.p.set_hint(hint);
        self
    }

    pub fn set_help(&mut self, help: &str) -> (r: &mut Self)
        ensures
            r.p.help@ == help@,
            r.p == (PosStore { help: r.p.help, ..old(self).p }),
            r.c == old(self).c,
            *final(self) == *final(r),
    {
        self.p.set_help(help);
        self
    }

    pub fn set_optional(&mut self, optional: bool) -> (r: &mut Self)
        ensures
            r.p.optional == optional,
            r.p == (PosStore { optional: r.p.optional, ..old(self).p }),
            r.c == old(self).c,
            *final(self) == *final(r),
    {
        self.p.set_optional(optional);
        self
    }

    pub fn set_index(&mut self, index: i64) -> (r: &mut Self)
        ensures
            r.p.index == index,
            r.p == (PosStore { index: r.p.index, ..old(self).p }),
            r.c == old(self).c,
            *final(self) == *final(r),
    {
        self.p.set_index(index);
        self
    }

    /// Add a copy of the non-option to the command.
    pub fn commit(&mut self)
        ensures
            final(self).p == old(self).p,
            *final(final(self).c) == *final(old(self).c),
            final(self).c.pos_store@ == old(self).c.pos_store@.push(old(self).p),
            final(self).c.opt_store == old(self).c.opt_store,
            final(self).c.name == old(self).c.name,
            final(self).c.usage == old(self).c.usage,
            final(self).c.footer == old(self).c.footer,
            final(self).c.header == old(self).c.header,
            final(self).c.hint == old(self).c.hint,
            final(self).c.help == old(self).c.help,
    {
        let p = self.p.copied();
        self.c.add_pos(p);
    }
}

/// Builds the help of an option, and adds it to a command.
pub struct CmdOptMut<'a> {
    pub c: &'a mut CmdStore,
    pub o: OptStore,
}

impl<'a> CmdOptMut<'a> {
    pub fn new(c: &'a mut CmdStore, name: &str) -> (r: Self)
        ensures
            r.o.name@ == name@,
            r.o.hint@.len() == 0,
            r.o.help@.len() == 0,
            !r.o.optional,
            *r.c == *old(c),
            *final(c) == *final(r.c),
    {
        let mut st = OptStore::default();
        st.set_name(name);
        CmdOptMut { c, o: st }
    }

    pub fn set_name(&mut self, name: &str) -> (r: &mut Self)
        ensures
            r.o.name@ == name@,
            r.o == (OptStore { name: r.o.name, ..old(self).o }),
            r.c == old(self).c,
            *final(self) == *final(r),
    {
        self.o.set_name(name);
        self
    }

    pub fn set_hint(&mut self, hint: &str) -> (r: &mut Self)
        ensures
            r.o.hint@ == hint@,
            r.o == (OptStore { hint: r.o.hint, ..old(self).o }),
            r.c == old(self).c,
            *final(self) == *final(r),
    {
        self.o.set_hint(hint);
        self
    }

    pub fn set_help(&mut self, help: &str) -> (r: &mut Self)
        ensures
            r.o.help@ == help@,
            r.o == (OptStore { help: r.o.help, ..old(self).o }),
            r.c == old(self).c,
            *final(self) == *final(r),
    {
        self.o.set_help(help);
        self
    }

    pub fn set_optional(&mut self, optional: bool) -> (r: &mut Self)
        ensures
            r.o.optional == optional,
            r.o == (OptStore { optional: r.o.optional, ..old(self).o }),
            r.c == old(self).c,
            *final(self) == *final(r),
    {
        self.o.set_optional(optional);
        self
    }

    /// Add a copy of the option to the command.
    pub fn commit(&mut self)
        ensures
            final(self).o == old(self).o,
            *final(final(self).c) == *final(old(self).c),
            final(self).c.opt_store@ == old(self).c.opt_store@.push(old(self).o),
            final(self).c.pos_store == old(self).c.pos_store,
            final(self).c.name == old(self).c.name,
            final(self).c.usage == old(self).c.usage,
            final(self).c.footer == old(self).c.footer,
            final(self).c.header == old(self).c.header,
            final(self).c.hint == old(self).c.hint,
            final(self).c.help == old(self).c.help,
    {
        let o = self.o.copied();
        self.c.add_opt(o);
    }
}


} // verus!
