use vstd::prelude::*;

verus! {
/// The help of an option: its name, hint, help text and whether it is optional.
#[derive(Debug, Clone)]
pub struct OptStore {
    pub name: String,
    pub hint: String,
    pub help: String,
    pub optional: bool,
}

impl OptStore {
    /// A copy of the option's help, field by field.
    pub fn copied(&self) -> (r: OptStore)
        ensures
            r == *self,
    {
        OptStore {
            name: self.name.clone(),
            hint: self.hint.clone(),
            help: self.help.clone(),
            optional: self.optional,
        }
    }
}

impl Default for OptStore {
    fn default() -> (r: Self)
        ensures
            r.name@.len() == 0,
            r.hint@.len() == 0,
            r.help@.len() == 0,
            !r.optional,
    {
        OptStore { name: String::new(), hint: String::new(), help: String::new(), optional: false }
    }
}

impl OptStore {
    pub fn set_name(&mut self, name: &str) -> (r: &mut Self)
        ensures
            r.name@ == name@,
            r.hint == old(self).hint,
            r.help == old(self).help,
            r.optional == old(self).optional,
            *final(self) == *final(r),
    {
        self.name = name.to_owned();
        self
    }

    pub fn set_hint(&mut self, hint: &str) -> (r: &mut Self)
        ensures
            r.hint@ == hint@,
            r.name == old(self).name,
            r.help == old(self).help,
            r.optional == old(self).optional,
            *final(self) == *final(r),
    {
        self.hint = hint.to_owned();
        self
    }

    pub fn set_help(&mut self, help: &str) -> (r: &mut Self)
        ensures
            r.help@ == help@,
            r.name == old(self).name,
            r.hint == old(self).hint,
            r.optional == old(self).optional,
            *final(self) == *final(r),
    {
        self.help = help.to_owned();
        self
    }

    pub fn set_optional(&mut self, optional: bool) -> (r: &mut Self)
        ensures
            r.optional == optional,
            r.name == old(self).name,
            r.hint == old(self).hint,
            r.help == old(self).help,
            *final(self) == *final(r),
    {
        self.optional = optional;
        self
    }

    pub fn get_name(&self) -> (r: &str)
        ensures
            r@ == self.name@,
    {
        self.name.as_str()
    }

    pub fn get_hint(&self) -> (r: &str)
        ensures
            r@ == self.hint@,
    {
        self.hint.as_str()
    }

    pub fn get_help(&self) -> (r: &str)
        ensures
            r@ == self.help@,
    {
        self.help.as_str()
    }

    pub fn get_optional(&self) -> (r: bool)
        ensures
            r == self.optional,
    {
        self.optional
    }

}

/// The help of a positional non-option: its name, hint, help text, index and whether it is optional.
#[derive(Debug, Clone)]
pub struct PosStore {
    pub name: String,
    pub hint: String,
    pub help: String,
    pub index: i64,
    pub optional: bool,
}

impl PosStore {
    /// A copy of the non-option's help, field by field.
    pub fn copied(&self) -> (r: PosStore)
        ensures
            r == *self,
    {
        PosStore {
            name: self.name.clone(),
            hint: self.hint.clone(),
            help: self.help.clone(),
            index: self.index,
            optional: self.optional,
        }
    }
}

impl Default for PosStore {
    fn default() -> (r: Self)
        ensures
            r.name@.len() == 0,
            r.hint@.len() == 0,
            r.help@.len() == 0,
            r.index == 0,
            !r.optional,
    {
        PosStore { name: String::new(), hint: String::new(), help: String::new(), index: 0, optional: false }
    }
}

impl PosStore {
    pub fn set_name(&mut self, name: &str) -> (r: &mut Self)
        ensures
            r.name@ == name@,
            r.hint == old(self).hint,
            r.help == old(self).help,
            r.index == old(self).index,
            r.optional == old(self).optional,
            *final(self) == *final(r),
    {
        self.name = name.to_owned();
        self
    }

    pub fn set_hint(&mut self, hint: &str) -> (r: &mut Self)
        ensures
            r.hint@ == hint@,
            r.name == old(self).name,
            r.help == old(self).help,
            r.index == old(self).index,
            r.optional == old(self).optional,
            *final(self) == *final(r),
    {
        self.hint = hint.to_owned();
        self
    }

    pub fn set_help(&mut self, help: &str) -> (r: &mut Self)
        ensures
            r.help@ == help@,
            r.name == old(self).name,
            r.hint == old(self).hint,
            r.index == old(self).index,
            r.optional == old(self).optional,
            *final(self) == *final(r),
    {
        self.help = help.to_owned();
        self
    }

    pub fn set_index(&mut self, index: i64) -> (r: &mut Self)
        ensures
            r.index == index,
            r.name == old(self).name,
            r.hint == old(self).hint,
            r.help == old(self).help,
            r.optional == old(self).optional,
            *final(self) == *final(r),
    {
        self.index = index;
        self
    }

    pub fn set_optional(&mut self, optional: bool) -> (r: &mut Self)
        ensures
            r.optional == optional,
            r.name == old(self).name,
            r.hint == old(self).hint,
            r.help == old(self).help,
            r.index == old(self).index,
            *final(self) == *final(r),
    {
        self.optional = optional;
        self
    }

    pub fn get_name(&self) -> (r: &str)
        ensures
            r@ == self.name@,
    {
        self.name.as_str()
    }

    pub fn get_hint(&self) -> (r: &str)
        ensures
            r@ == self.hint@,
    {
        self.hint.as_str()
    }

    pub fn get_help(&self) -> (r: &str)
        ensures
            r@ == self.help@,
    {
        self.help.as_str()
    }

    pub fn get_index(&self) -> (r: i64)
        ensures
            r == self.index,
    {
        self.index
    }

    pub fn get_optional(&self) -> (r: bool)
        ensures
            r == self.optional,
    {
        self.optional
    }

}

/// The help of a command: its texts, and the help of its non-options and options.
#[derive(Debug, Clone)]
pub struct CmdStore {
    pub name: String,
    pub usage: String,
    pub footer: String,
    pub header: String,
    pub hint: String,
    pub help: String,
    pub pos_store: Vec<PosStore>,
    pub opt_store: Vec<OptStore>,
}

impl Default for CmdStore {
    fn default() -> (r: Self)
        ensures
            r.name@.len() == 0,
            r.usage@.len() == 0,
            r.footer@.len() == 0,
            r.header@.len() == 0,
            r.hint@.len() == 0,
            r.help@.len() == 0,
            r.pos_store@.len() == 0,
            r.opt_store@.len() == 0,
    {
        CmdStore { name: String::new(), usage: String::new(), footer: String::new(), header: String::new(), hint: String::new(), help: String::new(), pos_store: Vec::new(), opt_store: Vec::new() }
    }
}

impl CmdStore {
    /// The command's help is that of `o`: the same texts, and the same non-options
    /// and options in the same order.
    pub open spec fn same_as(self, o: CmdStore) -> bool {
        &&& self.name == o.name
        &&& self.usage == o.usage
        &&& self.footer == o.footer
        &&& self.header == o.header
        &&& self.hint == o.hint
        &&& self.help == o.help
        &&& self.pos_store@ == o.pos_store@
        &&& self.opt_store@ == o.opt_store@
    }

    /// A copy of the command's help, field by field.
    pub fn copied(&self) -> (r: CmdStore)
        ensures
            r.same_as(*self),
    {
        let mut pos_store: Vec<PosStore> = Vec::new();
        let mut i: usize = 0;
        while i < self.pos_store.len()
            invariant
                i <= self.pos_store@.len(),
                pos_store@ == self.pos_store@.take(i as int),
            decreases self.pos_store@.len() - i,
        {
            pos_store.push(self.pos_store[i].copied());
            i = i + 1;
            assert(pos_store@ =~= self.pos_store@.take(i as int));
        }
        let mut opt_store: Vec<OptStore> = Vec::new();
        let mut j: usize = 0;
        while j < self.opt_store.len()
            invariant
                j <= self.opt_store@.len(),
                opt_store@ == self.opt_store@.take(j as int),
            decreases self.opt_store@.len() - j,
        {
            opt_store.push(self.opt_store[j].copied());
            j = j + 1;
            assert(opt_store@ =~= self.opt_store@.take(j as int));
        }
        assert(pos_store@ =~= self.pos_store@);
        assert(opt_store@ =~= self.opt_store@);
        CmdStore {
            name: self.name.clone(),
            usage: self.usage.clone(),
            footer: self.footer.clone(),
            header: self.header.clone(),
            hint: self.hint.clone(),
            help: self.help.clone(),
            pos_store,
            opt_store,
        }
    }

    pub fn set_name(&mut self, name: &str) -> (r: &mut Self)
        ensures
            r.name@ == name@,
            r.usage == old(self).usage,
            r.footer == old(self).footer,
            r.header == old(self).header,
            r.hint == old(self).hint,
            r.help == old(self).help,
            r.pos_store == old(self).pos_store,
            r.opt_store == old(self).opt_store,
            *final(self) == *final(r),
    {
        self.name = name.to_owned();
        self
    }

    pub fn set_usage(&mut self, usage: &str) -> (r: &mut Self)
        ensures
            r.usage@ == usage@,
            r.name == old(self).name,
            r.footer == old(self).footer,
            r.header == old(self).header,
            r.hint == old(self).hint,
            r.help == old(self).help,
            r.pos_store == old(self).pos_store,
            r.opt_store == old(self).opt_store,
            *final(self) == *final(r),
    {
        self.usage = usage.to_owned();
        self
    }

    pub fn set_footer(&mut self, footer: &str) -> (r: &mut Self)
        ensures
            r.footer@ == footer@,
            r.name == old(self).name,
            r.usage == old(self).usage,
            r.header == old(self).header,
            r.hint == old(self).hint,
            r.help == old(self).help,
            r.pos_store == old(self).pos_store,
            r.opt_store == old(self).opt_store,
            *final(self) == *final(r),
    {
        self.footer = footer.to_owned();
        self
    }

    pub fn set_header(&mut self, header: &str) -> (r: &mut Self)
        ensures
            r.header@ == header@,
            r.name == old(self).name,
            r.usage == old(self).usage,
            r.footer == old(self).footer,
            r.hint == old(self).hint,
            r.help == old(self).help,
            r.pos_store == old(self).pos_store,
            r.opt_store == old(self).opt_store,
            *final(self) == *final(r),
    {
        self.header = header.to_owned();
        self
    }

    pub fn set_hint(&mut self, hint: &str) -> (r: &mut Self)
        ensures
            r.hint@ == hint@,
            r.name == old(self).name,
            r.usage == old(self).usage,
            r.footer == old(self).footer,
            r.header == old(self).header,
            r.help == old(self).help,
            r.pos_store == old(self).pos_store,
            r.opt_store == old(self).opt_store,
            *final(self) == *final(r),
    {
        self.hint = hint.to_owned();
        self
    }

    pub fn set_help(&mut self, help: &str) -> (r: &mut Self)
        ensures
            r.help@ == help@,
            r.name == old(self).name,
            r.usage == old(self).usage,
            r.footer == old(self).footer,
            r.header == old(self).header,
            r.hint == old(self).hint,
            r.pos_store == old(self).pos_store,
            r.opt_store == old(self).opt_store,
            *final(self) == *final(r),
    {
        self.help = help.to_owned();
        self
    }

    pub fn add_pos(&mut self, pos: PosStore) -> (r: &mut Self)
        ensures
            r.pos_store@ == old(self).pos_store@.push(pos),
            r.name == old(self).name,
            r.usage == old(self).usage,
            r.footer == old(self).footer,
            r.header == old(self).header,
            r.hint == old(self).hint,
            r.help == old(self).help,
            r.opt_store == old(self).opt_store,
            *final(self) == *final(r),
    {
        self.pos_store.push(pos);
        self
    }

    pub fn add_opt(&mut self, opt: OptStore) -> (r: &mut Self)
        ensures
            r.opt_store@ == old(self).opt_store@.push(opt),
            r.name == old(self).name,
            r.usage == old(self).usage,
            r.footer == old(self).footer,
            r.header == old(self).header,
            r.hint == old(self).hint,
            r.help == old(self).help,
            r.pos_store == old(self).pos_store,
            *final(self) == *final(r),
    {
        self.opt_store.push(opt);
        self
    }

    pub fn get_name(&self) -> (r: &str)
        ensures
            r@ == self.name@,
    {
        self.name.as_str()
    }

    pub fn get_hint(&self) -> (r: &str)
        ensures
            r@ == self.hint@,
    {
        self.hint.as_str()
    }

    pub fn get_help(&self) -> (r: &str)
        ensures
            r@ == self.help@,
    {
        self.help.as_str()
    }

    /// The first pos named `pos`.
    pub fn get_pos(&self, pos: &str) -> (r: Option<&PosStore>)
        ensures
            match r {
                Some(x) => exists|i: int| 0 <= i < self.pos_store@.len() && self.pos_store@[i] == *x && x.name@ == pos@
                    && forall|j: int| 0 <= j < i ==> (#[trigger] self.pos_store@[j]).name@ != pos@,
                None => forall|j: int| 0 <= j < self.pos_store@.len() ==> (#[trigger] self.pos_store@[j]).name@ != pos@,
            },
    {
        let mut i: usize = 0;
        while i < self.pos_store.len()
            invariant
                i <= self.pos_store@.len(),
                forall|j: int| 0 <= j < i ==> (#[trigger] self.pos_store@[j]).name@ != pos@,
            decreases self.pos_store@.len() - i,
        {
            if crate::text::str_eq(self.pos_store[i].name.as_str(), pos) {
                return Some(&self.pos_store[i]);
            }
            i = i + 1;
        }
        None
    }

    /// The first opt named `opt`.
    pub fn get_opt(&self, opt: &str) -> (r: Option<&OptStore>)
        ensures
            match r {
                Some(x) => exists|i: int| 0 <= i < self.opt_store@.len() && self.opt_store@[i] == *x && x.name@ == opt@
                    && forall|j: int| 0 <= j < i ==> (#[trigger] self.opt_store@[j]).name@ != opt@,
                None => forall|j: int| 0 <= j < self.opt_store@.len() ==> (#[trigger] self.opt_store@[j]).name@ != opt@,
            },
    {
        let mut i: usize = 0;
        while i < self.opt_store.len()
            invariant
                i <= self.opt_store@.len(),
                forall|j: int| 0 <= j < i ==> (#[trigger] self.opt_store@[j]).name@ != opt@,
            decreases self.opt_store@.len() - i,
        {
            if crate::text::str_eq(self.opt_store[i].name.as_str(), opt) {
                return Some(&self.opt_store[i]);
            }
            i = i + 1;
        }
        None
    }

}

/// A section of the help: its texts and the commands attached to it.
#[derive(Debug, Clone)]
pub struct SecStore {
    pub name: String,
    pub hint: String,
    pub help: String,
    pub cmd_attach: Vec<String>,
}

impl Default for SecStore {
    fn default() -> (r: Self)
        ensures
            r.name@.len() == 0,
            r.hint@.len() == 0,
            r.help@.len() == 0,
            r.cmd_attach@.len() == 0,
    {
        SecStore { name: String::new(), hint: String::new(), help: String::new(), cmd_attach: Vec::new() }
    }
}

impl SecStore {
    /// The section's help is that of `o`: the same texts and the same commands.
    pub open spec fn same_as(self, o: SecStore) -> bool {
        &&& self.name == o.name
        &&& self.hint == o.hint
        &&& self.help == o.help
        &&& self.cmd_attach@ == o.cmd_attach@
    }

    /// A copy of the section's help, field by field.
    pub fn copied(&self) -> (r: SecStore)
        ensures
            r.same_as(*self),
    {
        let mut cmd_attach: Vec<String> = Vec::new();
        let mut i: usize = 0;
        while i < self.cmd_attach.len()
            invariant
                i <= self.cmd_attach@.len(),
                cmd_attach@ == self.cmd_attach@.take(i as int),
            decreases self.cmd_attach@.len() - i,
        {
            cmd_attach.push(self.cmd_attach[i].clone());
            i = i + 1;
            assert(cmd_attach@ =~= self.cmd_attach@.take(i as int));
        }
        assert(cmd_attach@ =~= self.cmd_attach@);
        SecStore { name: self.name.clone(), hint: self.hint.clone(), help: self.help.clone(), cmd_attach }
    }

    pub fn set_name(&mut self, name: &str) -> (r: &mut Self)
        ensures
            r.name@ == name@,
            r.hint == old(self).hint,
            r.help == old(self).help,
            r.cmd_attach == old(self).cmd_attach,
            *final(self) == *final(r),
    {
        self.name = name.to_owned();
        self
    }

    pub fn set_hint(&mut self, hint: &str) -> (r: &mut Self)
        ensures
            r.hint@ == hint@,
            r.name == old(self).name,
            r.help == old(self).help,
            r.cmd_attach == old(self).cmd_attach,
            *final(self) == *final(r),
    {
        self.hint = hint.to_owned();
        self
    }

    pub fn set_help(&mut self, help: &str) -> (r: &mut Self)
        ensures
            r.help@ == help@,
            r.name == old(self).name,
            r.hint == old(self).hint,
            r.cmd_attach == old(self).cmd_attach,
            *final(self) == *final(r),
    {
        self.help = help.to_owned();
        self
    }

    /// Attach the command `cmd` to the section.
    pub fn attach_cmd(&mut self, cmd: &str) -> (r: &mut Self)
        ensures
            r.cmd_attach@.len() == old(self).cmd_attach@.len() + 1,
            r.cmd_attach@.drop_last() == old(self).cmd_attach@,
            r.cmd_attach@.last()@ == cmd@,
            r.name == old(self).name,
            r.hint == old(self).hint,
            r.help == old(self).help,
            *final(self) == *final(r),
    {
        let ghost before = self.cmd_attach@;
        self.cmd_attach.push(cmd.to_owned());
        assert(self.cmd_attach@.drop_last() =~= before);
        self
    }

    /// The command `cmd` is attached to the section.
    pub fn has_cmd(&self, cmd: &str) -> (r: bool)
        ensures
            r == exists|j: int| 0 <= j < self.cmd_attach@.len() && (#[trigger] self.cmd_attach@[j])@ == cmd@,
    {
        let mut i: usize = 0;
        while i < self.cmd_attach.len()
            invariant
                i <= self.cmd_attach@.len(),
                forall|j: int| 0 <= j < i ==> (#[trigger] self.cmd_attach@[j])@ != cmd@,
            decreases self.cmd_attach@.len() - i,
        {
            if crate::text::str_eq(self.cmd_attach[i].as_str(), cmd) {
                return true;
            }
            i = i + 1;
        }
        false
    }

    pub fn get_name(&self) -> (r: &str)
        ensures
            r@ == self.name@,
    {
        self.name.as_str()
    }

    pub fn get_hint(&self) -> (r: &str)
        ensures
            r@ == self.hint@,
    {
        self.hint.as_str()
    }

    pub fn get_help(&self) -> (r: &str)
        ensures
            r@ == self.help@,
    {
        self.help.as_str()
    }

}

} // verus!
