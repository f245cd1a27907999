use vstd::prelude::*;

use crate::id::{DefaultIdGen, Identifier};
use crate::parser::forward::ForwardParser;
use crate::parser::pre::PreParser;
use crate::parser::delay::DelayParser;

verus! {

/// Create a [`DefaultIdGen`] that starts at `id`.
pub fn idgenerator(id: u64) -> (r: DefaultIdGen)
    ensures
        r.id.0 == id,
{
    DefaultIdGen::new(Identifier::new(id))
}

/// A delay parser with the identifier generator.
pub fn delay_parse(id_generator: DefaultIdGen) -> (r: DelayParser)
    ensures
        r.core.msg_id_gen == id_generator,
        r.core.cached_infos@.len() == 0,
        r.core.noa@.len() == 0,
        r.core.set is None,
        r.core.callbacks@.dom().is_empty(),
        r.value_mapper@.len() == 0,
{
    DelayParser::new(id_generator)
}

/// A pre parser with the identifier generator.
pub fn pre_parse(id_generator: DefaultIdGen) -> (r: PreParser)
    ensures
        r.core.msg_id_gen == id_generator,
        r.core.cached_infos@.len() == 0,
        r.core.noa@.len() == 0,
        r.core.set is None,
        r.core.callbacks@.dom().is_empty(),
{
    PreParser::new(id_generator)
}

/// A forward parser with the identifier generator.
pub fn forward_parse(id_generator: DefaultIdGen) -> (r: ForwardParser)
    ensures
        r.msg_id_gen == id_generator,
        r.cached_infos@.len() == 0,
        r.noa@.len() == 0,
        r.set is None,
        r.callbacks@.dom().is_empty(),
{
    ForwardParser::new(id_generator)
}

} // verus!
