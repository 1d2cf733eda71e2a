//! The lines: one state machine per connection the gateway keeps.
pub mod base_line;
pub mod status;
pub mod tcp2vps;
pub mod hk;
pub mod mainland;
pub mod pc;
pub mod world;
pub mod dns;
pub mod pair;
pub mod network;
pub mod event;
pub mod any_line;
pub mod protocol;

use vstd::prelude::*;
use self::any_line::{AnyLine, AnyLineView};
use self::event::LineEvent;

verus! {

/// A line of a particular kind that can join the gateway's table.
pub trait LineTrait: LineEvent {
    /// The table entry of a line with view `v`.
    spec fn any_view(v: Self::V) -> AnyLineView;

    fn into_line(self) -> (r: AnyLine)
        ensures
            r@ == Self::any_view(self@),
    ;
}

impl LineTrait for dns::LineDns {
    open spec fn any_view(v: dns::DnsView) -> AnyLineView {
        AnyLineView::Dns(v)
    }

    fn into_line(self) -> (r: AnyLine) {
        AnyLine::Dns(self)
    }
}

impl LineTrait for tcp2vps::LineTcp2Vps {
    open spec fn any_view(v: tcp2vps::LineTcp2Vps) -> AnyLineView {
        AnyLineView::Tcp2Vps(v)
    }

    fn into_line(self) -> (r: AnyLine) {
        AnyLine::Tcp2Vps(self)
    }
}

impl LineTrait for pc::LinePc {
    open spec fn any_view(v: pc::LinePc) -> AnyLineView {
        AnyLineView::Pc(v)
    }

    fn into_line(self) -> (r: AnyLine) {
        AnyLine::Pc(self)
    }
}

impl LineTrait for mainland::LineMainLand {
    open spec fn any_view(v: mainland::MainLandView) -> AnyLineView {
        AnyLineView::MainLand(v)
    }

    fn into_line(self) -> (r: AnyLine) {
        AnyLine::MainLand(self)
    }
}

impl LineTrait for world::LineWorld {
    open spec fn any_view(v: world::WorldView) -> AnyLineView {
        AnyLineView::World(v)
    }

    fn into_line(self) -> (r: AnyLine) {
        AnyLine::World(self)
    }
}

impl LineTrait for AnyLine {
    open spec fn any_view(v: AnyLineView) -> AnyLineView {
        v
    }

    fn into_line(self) -> (r: AnyLine) {
        self
    }
}

} // verus!
