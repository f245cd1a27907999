use vstd::prelude::*;

use crate::error::{Error, Result};
use crate::id::Identifier as IIdentifier;
use crate::text::{parse_i64, parse_u64, spec_parse_i64, spec_parse_u64, clone_strings};
use crate::arg::strings_view;

pub mod common;
pub mod string;
pub mod boolean;
pub mod array;
pub mod integer;
pub mod unsigned;
pub mod path;

verus! {

/// The option style type.
#[derive(Debug, Clone, Copy, PartialEq, Eq, Structural)]
pub enum Style {
    /// Boolean style is the option such as "-o", "--option", "-option", "-/a", etc.
    Boolean,
    /// Argument style is the option such as "-o 1", "-o=1", "--option=1", "-option=1", etc.
    Argument,
    /// Multiple style are some option such as "-abcd", meaning "-a", "-b", "-c" and "-d".
    Multiple,
    /// A non-option at a given position.
    Pos,
    /// A non-option that names a sub command, always the first one.
    Cmd,
    /// The non-option that stands for the whole command line.
    Main,
    Null,
}

/// The index of non-option arguments, based on one.
#[derive(Debug, PartialEq, Eq)]
pub enum NonOptIndex {
    /// The n-th non-option argument, counted from the front.
    Forward(u64),
    /// The n-th non-option argument, counted from the back.
    Backward(u64),
    /// Any non-option argument.
    AnyWhere,
    /// Any of the listed positions.
    List(Vec<u64>),
    /// Any position but the listed ones.
    Except(Vec<u64>),
    Null,
}

/// [`NonOptIndex`] as a mathematical value.
pub ghost enum NonOptIndexView {
    Forward(u64),
    Backward(u64),
    AnyWhere,
    List(Seq<u64>),
    Except(Seq<u64>),
    Null,
}

impl View for NonOptIndex {
    type V = NonOptIndexView;

    open spec fn view(&self) -> NonOptIndexView {
        match self {
            NonOptIndex::Forward(o) => NonOptIndexView::Forward(*o),
            NonOptIndex::Backward(o) => NonOptIndexView::Backward(*o),
            NonOptIndex::AnyWhere => NonOptIndexView::AnyWhere,
            NonOptIndex::List(l) => NonOptIndexView::List(l@),
            NonOptIndex::Except(l) => NonOptIndexView::Except(l@),
            NonOptIndex::Null => NonOptIndexView::Null,
        }
    }
}

/// The position that `index` stands for among `total` non-option arguments, when the
/// argument at position `current` is being looked at.
pub open spec fn spec_calc_index(index: NonOptIndexView, total: u64, current: u64) -> Option<u64> {
    match index {
        NonOptIndexView::Forward(o) => if o <= total { Some(o) } else { None },
        NonOptIndexView::Backward(o) => {
            let r = total - o + 1;
            if 0 < r <= u64::MAX { Some(r as u64) } else { None }
        },
        NonOptIndexView::AnyWhere => Some(current),
        NonOptIndexView::List(l) => if l.contains(current) { Some(current) } else { None },
        NonOptIndexView::Except(l) => if !l.contains(current) { Some(current) } else { None },
        NonOptIndexView::Null => None,
    }
}

/// Among `total` non-option arguments, the `k`-th from the front is the
/// `(total - k + 1)`-th from the back: both indexes pick position `k`, wherever the
/// argument being looked at stands.
pub proof fn law_forward_backward(k: u64, total: u64, current: u64)
    requires
        1 <= k <= total,
    ensures
        spec_calc_index(NonOptIndexView::Forward(k), total, current) == Some(k),
        spec_calc_index(NonOptIndexView::Backward((total - k + 1) as u64), total, current) == Some(k),
{
}

fn vec_contains_u64(v: &Vec<u64>, x: u64) -> (r: bool)
    ensures
        r == v@.contains(x),
{
    let mut i: usize = 0;
    while i < v.len()
        invariant
            i <= v.len(),
            forall|j: int| 0 <= j < i ==> v@[j] != x,
        decreases v.len() - i,
    {
        if v[i] == x {
            return true;
        }
        i = i + 1;
    }
    false
}

fn vec_eq_u64(a: &Vec<u64>, b: &Vec<u64>) -> (r: bool)
    ensures
        r == (a@ == b@),
{
    if a.len() != b.len() {
        return false;
    }
    let mut i: usize = 0;
    while i < a.len()
        invariant
            i <= a.len(),
            a.len() == b.len(),
            forall|j: int| 0 <= j < i ==> a@[j] == b@[j],
        decreases a.len() - i,
    {
        if a[i] != b[i] {
            return false;
        }
        i = i + 1;
    }
    assert(a@ =~= b@);
    true
}

fn vec_clone_u64(v: &Vec<u64>) -> (r: Vec<u64>)
    ensures
        r@ == v@,
{
    let mut r: Vec<u64> = Vec::new();
    let mut i: usize = 0;
    while i < v.len()
        invariant
            i <= v.len(),
            r@ == v@.subrange(0, i as int),
        decreases v.len() - i,
    {
        r.push(v[i]);
        i = i + 1;
    }
    assert(r@ =~= v@);
    r
}

impl NonOptIndex {
    /// Return [`Self::Forward`] if index bigger than zero,
    /// [`Self::Backward`] if index little than zero,
    /// otherwise [`Self::AnyWhere`].
    pub fn new(index: i64) -> (r: Self)
        ensures
            index > 0 ==> r@ == NonOptIndexView::Forward(index as u64),
            index < 0 ==> r@ == NonOptIndexView::Backward((-index) as u64),
            index == 0 ==> r@ == NonOptIndexView::AnyWhere,
    {
        if index > 0 {
            NonOptIndex::Forward(index as u64)
        } else if index < 0 {
            let m = -(index + 1);
            NonOptIndex::Backward(m as u64 + 1)
        } else {
            NonOptIndex::AnyWhere
        }
    }

    pub fn forward(index: u64) -> (r: Self)
        ensures
            r@ == NonOptIndexView::Forward(index),
    {
        NonOptIndex::Forward(index)
    }

    pub fn backward(index: u64) -> (r: Self)
        ensures
            r@ == NonOptIndexView::Backward(index),
    {
        NonOptIndex::Backward(index)
    }

    pub fn anywhere() -> (r: Self)
        ensures
            r@ == NonOptIndexView::AnyWhere,
    {
        NonOptIndex::AnyWhere
    }

    pub fn list(list: Vec<u64>) -> (r: Self)
        ensures
            r@ == NonOptIndexView::List(list@),
    {
        NonOptIndex::List(list)
    }

    pub fn except(list: Vec<u64>) -> (r: Self)
        ensures
            r@ == NonOptIndexView::Except(list@),
    {
        NonOptIndex::Except(list)
    }

    pub fn null() -> (r: Self)
        ensures
            r@ == NonOptIndexView::Null,
    {
        NonOptIndex::Null
    }

    /// The position that this index stands for among `total` non-option arguments,
    /// when the argument at position `current` is being looked at.
    pub fn calc_index(&self, total: u64, current: u64) -> (r: Option<u64>)
        ensures
            r == spec_calc_index(self@, total, current),
    {
        match self {
            NonOptIndex::Forward(offset) => {
                if *offset <= total {
                    Some(*offset)
                } else {
                    None
                }
            },
            NonOptIndex::Backward(offset) => {
                if *offset == 0 {
                    if total < u64::MAX { Some(total + 1) } else { None }
                } else if *offset <= total {
                    Some(total - *offset + 1)
                } else {
                    None
                }
            },
            NonOptIndex::AnyWhere => Some(current),
            NonOptIndex::List(l) => {
                if vec_contains_u64(l, current) {
                    Some(current)
                } else {
                    None
                }
            },
            NonOptIndex::Except(l) => {
                if !vec_contains_u64(l, current) {
                    Some(current)
                } else {
                    None
                }
            },
            NonOptIndex::Null => None,
        }
    }

    /// The two indexes stand for the same positions in the same way.
    pub fn equals(&self, other: &NonOptIndex) -> (r: bool)
        ensures
            r == (self@ == other@),
    {
        match (self, other) {
            (NonOptIndex::Forward(a), NonOptIndex::Forward(b)) => *a == *b,
            (NonOptIndex::Backward(a), NonOptIndex::Backward(b)) => *a == *b,
            (NonOptIndex::AnyWhere, NonOptIndex::AnyWhere) => true,
            (NonOptIndex::List(a), NonOptIndex::List(b)) => vec_eq_u64(a, b),
            (NonOptIndex::Except(a), NonOptIndex::Except(b)) => vec_eq_u64(a, b),
            (NonOptIndex::Null, NonOptIndex::Null) => true,
            _ => false,
        }
    }

    pub fn is_null(&self) -> (r: bool)
        ensures
            r == (self@ == NonOptIndexView::Null),
    {
        match self {
            NonOptIndex::Null => true,
            _ => false,
        }
    }
}

impl Clone for NonOptIndex {
    fn clone(&self) -> (r: Self)
        ensures
            r@ == self@,
    {
        match self {
            NonOptIndex::Forward(o) => NonOptIndex::Forward(*o),
            NonOptIndex::Backward(o) => NonOptIndex::Backward(*o),
            NonOptIndex::AnyWhere => NonOptIndex::AnyWhere,
            NonOptIndex::List(l) => NonOptIndex::List(vec_clone_u64(l)),
            NonOptIndex::Except(l) => NonOptIndex::Except(vec_clone_u64(l)),
            NonOptIndex::Null => NonOptIndex::Null,
        }
    }
}

impl Default for NonOptIndex {
    fn default() -> (r: Self)
        ensures
            r@ == NonOptIndexView::Null,
    {
        NonOptIndex::Null
    }
}

/// The option value type.
#[derive(Debug, PartialEq)]
pub enum OptValue {
    /// Signed integer value
    Int(i64),
    /// Unsigned integer value
    Uint(u64),
    /// String value
    Str(String),
    /// Boolean value
    Bool(bool),
    /// A vector that holds multiple values
    Array(Vec<String>),
    Null,
}

/// [`OptValue`] as a mathematical value.
pub ghost enum OptValueView {
    Int(i64),
    Uint(u64),
    Str(Seq<char>),
    Bool(bool),
    Array(Seq<Seq<char>>),
    Null,
}

impl View for OptValue {
    type V = OptValueView;

    open spec fn view(&self) -> OptValueView {
        match self {
            OptValue::Int(v) => OptValueView::Int(*v),
            OptValue::Uint(v) => OptValueView::Uint(*v),
            OptValue::Str(v) => OptValueView::Str(v@),
            OptValue::Bool(v) => OptValueView::Bool(*v),
            OptValue::Array(v) => OptValueView::Array(strings_view(v@)),
            OptValue::Null => OptValueView::Null,
        }
    }
}

impl OptValue {
    pub fn parse_int(s: &str) -> (r: Result<Self>)
        ensures
            match spec_parse_i64(s@) {
                Some(v) => r matches Ok(x) && x@ == OptValueView::Int(v),
                None => r matches Err(Error::InvaldOptionValue(m, _)) && m@ == s@,
            },
    {
        match parse_i64(s) {
            Some(value) => Ok(Self::from_int(value)),
            None => Err(Error::InvaldOptionValue(s.to_owned(), "invalid integer".to_owned())),
        }
    }

    pub fn parse_uint(s: &str) -> (r: Result<Self>)
        ensures
            match spec_parse_u64(s@) {
                Some(v) => r matches Ok(x) && x@ == OptValueView::Uint(v),
                None => r matches Err(Error::InvaldOptionValue(m, _)) && m@ == s@,
            },
    {
        match parse_u64(s) {
            Some(value) => Ok(Self::from_uint(value)),
            None => Err(Error::InvaldOptionValue(s.to_owned(), "invalid unsigned integer".to_owned())),
        }
    }

    pub fn from_int(t: i64) -> (r: Self)
        ensures
            r@ == OptValueView::Int(t),
    {
        OptValue::Int(t)
    }

    pub fn from_uint(t: u64) -> (r: Self)
        ensures
            r@ == OptValueView::Uint(t),
    {
        OptValue::Uint(t)
    }

    pub fn from_str(t: String) -> (r: Self)
        ensures
            r@ == OptValueView::Str(t@),
    {
        OptValue::Str(t)
    }

    pub fn from_bool(t: bool) -> (r: Self)
        ensures
            r@ == OptValueView::Bool(t),
    {
        OptValue::Bool(t)
    }

    pub fn from_vec(t: Vec<String>) -> (r: Self)
        ensures
            r@ == OptValueView::Array(strings_view(t@)),
    {
        OptValue::Array(t)
    }

    pub fn null() -> (r: Self)
        ensures
            r@ == OptValueView::Null,
    {
        OptValue::Null
    }

    /// Return None if the value is not an OptValue::Int
    /// The integer, to change in place; None if the value is not an integer.
    pub fn as_int_mut(&mut self) -> (r: Option<&mut i64>)
        ensures
            r is Some <==> old(self)@ is Int,
            r matches Some(v) ==> old(self)@ == OptValueView::Int(*v) && *final(self) == OptValue::Int(*final(v)),
            r is None ==> *final(self) == *old(self),
    {
        match self {
            OptValue::Int(v) => Some(v),
            _ => None,
        }
    }

    pub fn as_int(&self) -> (r: Option<&i64>)
        ensures
            r is Some <==> self@ is Int,
            r matches Some(v) ==> self@ == OptValueView::Int(*v),
    {
        match self {
            OptValue::Int(v) => Some(v),
            _ => None,
        }
    }

    /// Return None if the value is not an OptValue::Uint
    /// The unsigned integer, to change in place; None if the value is not one.
    pub fn as_uint_mut(&mut self) -> (r: Option<&mut u64>)
        ensures
            r is Some <==> old(self)@ is Uint,
            r matches Some(v) ==> old(self)@ == OptValueView::Uint(*v) && *final(self) == OptValue::Uint(*final(v)),
            r is None ==> *final(self) == *old(self),
    {
        match self {
            OptValue::Uint(v) => Some(v),
            _ => None,
        }
    }

    pub fn as_uint(&self) -> (r: Option<&u64>)
        ensures
            r is Some <==> self@ is Uint,
            r matches Some(v) ==> self@ == OptValueView::Uint(*v),
    {
        match self {
            OptValue::Uint(v) => Some(v),
            _ => None,
        }
    }

    /// Return None if the value is not an OptValue::Str
    /// The string, to change in place; None if the value is not one.
    pub fn as_str_mut(&mut self) -> (r: Option<&mut String>)
        ensures
            r is Some <==> old(self)@ is Str,
            r matches Some(v) ==> old(self)@ == OptValueView::Str(v@) && *final(self) == OptValue::Str(*final(v)),
            r is None ==> *final(self) == *old(self),
    {
        match self {
            OptValue::Str(v) => Some(v),
            _ => None,
        }
    }

    pub fn as_str(&self) -> (r: Option<&String>)
        ensures
            r is Some <==> self@ is Str,
            r matches Some(v) ==> self@ == OptValueView::Str(v@),
    {
        match self {
            OptValue::Str(v) => Some(v),
            _ => None,
        }
    }

    /// Return None if the value is not an OptValue::Bool
    /// The boolean, to change in place; None if the value is not one.
    pub fn as_bool_mut(&mut self) -> (r: Option<&mut bool>)
        ensures
            r is Some <==> old(self)@ is Bool,
            r matches Some(v) ==> old(self)@ == OptValueView::Bool(*v) && *final(self) == OptValue::Bool(*final(v)),
            r is None ==> *final(self) == *old(self),
    {
        match self {
            OptValue::Bool(v) => Some(v),
            _ => None,
        }
    }

    pub fn as_bool(&self) -> (r: Option<&bool>)
        ensures
            r is Some <==> self@ is Bool,
            r matches Some(v) ==> self@ == OptValueView::Bool(*v),
    {
        match self {
            OptValue::Bool(v) => Some(v),
            _ => None,
        }
    }

    /// Return None if the value is neither an OptValue::Bool nor OptValue::Null
    pub fn as_bool_or_null(&self) -> (r: Option<&bool>)
        ensures
            r is Some <==> (self@ is Bool || self@ is Null),
            r matches Some(v) ==> (self@ == OptValueView::Bool(*v) || (self@ is Null && !*v)),
    {
        match self {
            OptValue::Bool(v) => Some(v),
            OptValue::Null => Some(&false),
            _ => None,
        }
    }

    /// Return None if the value is not an OptValue::Array
    /// The strings, to change in place; None if the value is not one.
    pub fn as_vec_mut(&mut self) -> (r: Option<&mut Vec<String>>)
        ensures
            r is Some <==> old(self)@ is Array,
            r matches Some(v) ==> old(self)@ == OptValueView::Array(strings_view(v@)) && *final(self) == OptValue::Array(*final(v)),
            r is None ==> *final(self) == *old(self),
    {
        match self {
            OptValue::Array(v) => Some(v),
            _ => None,
        }
    }

    pub fn as_vec(&self) -> (r: Option<&Vec<String>>)
        ensures
            r is Some <==> self@ is Array,
            r matches Some(v) ==> self@ == OptValueView::Array(strings_view(v@)),
    {
        match self {
            OptValue::Array(v) => Some(v),
            _ => None,
        }
    }

    /// Append `s` when the value is an OptValue::Array, otherwise leave it unchanged.
    pub fn app_value(&mut self, s: String) -> (r: &mut Self)
        ensures
            old(self)@ matches OptValueView::Array(v) ==> r@ == OptValueView::Array(v.push(s@)),
            !(old(self)@ is Array) ==> r@ == old(self)@,
            *final(self) == *final(r),
    {
        match self {
            OptValue::Array(v) => {
                let ghost before = v@;
                let ghost sv = s@;
                v.push(s);
                proof {
                    assert(strings_view(v@) =~= strings_view(before).push(sv));
                }
            },
            _ => {},
        }
        self
    }

    pub fn is_int(&self) -> (r: bool)
        ensures
            r == self@ is Int,
    {
        match self {
            OptValue::Int(_) => true,
            _ => false,
        }
    }

    pub fn is_uint(&self) -> (r: bool)
        ensures
            r == self@ is Uint,
    {
        match self {
            OptValue::Uint(_) => true,
            _ => false,
        }
    }

    pub fn is_str(&self) -> (r: bool)
        ensures
            r == self@ is Str,
    {
        match self {
            OptValue::Str(_) => true,
            _ => false,
        }
    }

    pub fn is_bool(&self) -> (r: bool)
        ensures
            r == self@ is Bool,
    {
        match self {
            OptValue::Bool(_) => true,
            _ => false,
        }
    }

    pub fn is_array(&self) -> (r: bool)
        ensures
            r == self@ is Array,
    {
        match self {
            OptValue::Array(_) => true,
            _ => false,
        }
    }

    pub fn is_null(&self) -> (r: bool)
        ensures
            r == self@ is Null,
    {
        match self {
            OptValue::Null => true,
            _ => false,
        }
    }

    /// A copy of the value.
    pub fn clone_or(&self) -> (r: OptValue)
        ensures
            r@ == self@,
    {
        self.clone()
    }
}

impl Clone for OptValue {
    fn clone(&self) -> (r: Self)
        ensures
            r@ == self@,
    {
        match self {
            OptValue::Int(v) => OptValue::Int(*v),
            OptValue::Uint(v) => OptValue::Uint(*v),
            OptValue::Str(v) => OptValue::Str(v.clone()),
            OptValue::Bool(v) => OptValue::Bool(*v),
            OptValue::Array(v) => OptValue::Array(clone_strings(v)),
            OptValue::Null => OptValue::Null,
        }
    }
}

impl Default for OptValue {
    fn default() -> (r: Self)
        ensures
            r@ == OptValueView::Null,
    {
        OptValue::Null
    }
}

/// Something that carries an identifier.
pub trait Info {
    fn id(&self) -> IIdentifier;
}

/// Currently `OptionInfo` only hold a option identifier.
/// `Parser` can get the option from `Set` using this identifier.
#[derive(Debug, Clone, Copy)]
pub struct OptionInfo {
    pub id: IIdentifier,
}

impl OptionInfo {
    pub fn new(id: IIdentifier) -> (r: Self)
        ensures
            r.id == id,
    {
        Self { id }
    }
}

impl Info for OptionInfo {
    fn id(&self) -> (r: IIdentifier)
        ensures
            r == self.id,
    {
        self.id
    }
}

} // verus!
verus! {

/// Some specify interface of an option type.
pub trait Type {
    /// Unique type name of current option type
    fn get_type_name(&self) -> &str;

    /// Boolean option that initialized with true,
    /// user can set(disable) them by using "-/o"
    fn is_deactivate_style(&self) -> bool;

    /// Retrun true if the option compatible with the style
    fn is_style(&self, style: Style) -> bool;

    /// Check if the option is valid after parsed
    fn check(&self) -> Result<bool>;
}

/// The unique identifier interface of an option.
pub trait Identifier {
    /// Get an unique identifier of current option
    fn id(&self) -> IIdentifier;

    /// Set identifier to `id`
    fn set_id(&mut self, id: IIdentifier);
}

/// The callback interface of an option.
pub trait Callback {
    /// Get callback type of current option
    fn callback_type(&self) -> crate::callback::CallbackType;

    /// Set callback type of current option
    fn set_callback_type(&mut self, callback_type: crate::callback::CallbackType);

    /// Return true if the callback need invoke
    fn is_need_invoke(&self) -> bool;

    /// Set invoke flag
    fn set_need_invoke(&mut self, invoke: bool);
}

/// The name and prefix interface of an option.
pub trait Name {
    /// Get the name of current option, it will return "a" for "-a"
    fn name(&self) -> &str;

    /// Get the prefix of current option, it will return "-" for "-a"
    fn prefix(&self) -> &str;

    /// Set the name for current option
    fn set_name(&mut self, s: &str);

    /// Set the prefix for current option
    fn set_prefix(&mut self, s: &str);

    /// Return true if name equal
    fn match_name(&self, s: &str) -> bool;

    /// Return true if the prefix equal
    fn match_prefix(&self, s: &str) -> bool;
}

/// The alias interface of an option.
pub trait Alias {
    /// Get the alias for current option
    fn alias(&self) -> Option<&Vec<(String, String)>>;

    /// Add an new alias for current option
    fn add_alias(&mut self, prefix: &str, name: &str);

    /// Remove an alias of current option, return true if remove successful
    fn rem_alias(&mut self, prefix: &str, name: &str) -> bool;

    /// Return true if the option has the alias name
    fn match_alias(&self, prefix: &str, name: &str) -> bool;
}

/// The optional interface of an option.
pub trait Optional {
    /// Return true if the option is optional
    fn optional(&self) -> bool;

    /// Set the option to optional
    fn set_optional(&mut self, b: bool);

    /// Return true if the value equal
    fn match_optional(&self, b: bool) -> bool;
}

/// The value interface of an option.
pub trait Value {
    /// `v` can be handed to `set_value`.
    spec fn spec_set_value_ok(&self, v: OptValueView) -> bool;

    /// Get current value of the option
    fn value(&self) -> &OptValue;

    /// Get default value of the option
    fn default_value(&self) -> &OptValue;

    /// Set the option value
    fn set_value(&mut self, v: OptValue)
        requires
            old(self).spec_set_value_ok(v@),
    ;

    /// Set the option default value
    fn set_default_value(&mut self, v: OptValue);

    /// Parse the string to option value
    fn parse_value(&self, v: &str) -> Result<OptValue>;

    /// Return true if the option has value setted
    fn has_value(&self) -> bool;

    /// Reset value
    fn reset_value(&mut self);
}

/// The index interface of an non-option.
pub trait Index {
    fn index(&self) -> &NonOptIndex;

    fn set_index(&mut self, index: NonOptIndex);

    fn match_index(&self, total: u64, current: u64) -> bool;
}

/// The option trait type.
pub trait Opt: Type + Identifier + Name + Alias + Optional + Value + Index + Callback {

}

} // verus!
