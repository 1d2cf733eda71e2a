//! `LineHk`: the name the gateway also uses for a line to the remote gateway.
use vstd::prelude::*;

verus! {

pub type LineHk = crate::line::tcp2vps::LineTcp2Vps;

} // verus!
