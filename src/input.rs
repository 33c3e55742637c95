use vstd::prelude::*;
use crate::hex::Hex;

verus! {

/// What a click on a board hex means to the click resolver.
#[derive(Clone, Copy, Debug, PartialEq, Eq, Structural)]
pub enum ClickSignal {
    /// The hex differs from the one clicked last.
    NewTileClicked(Hex),
    /// The hex is the one clicked last.
    HexDoubleClicked(Hex),
}

pub open spec fn click_signal(last: Option<Hex>, h: Hex) -> ClickSignal {
    if last == Some(h) {
        ClickSignal::HexDoubleClicked(h)
    } else {
        ClickSignal::NewTileClicked(h)
    }
}

/// One-slot memory of the hex clicked last.
#[derive(Clone, Copy, Debug)]
pub struct ClickMemory {
    pub last: Option<Hex>,
}

impl ClickMemory {
    pub fn new() -> (r: ClickMemory)
        ensures
            r.last.is_none(),
    {
        ClickMemory { last: None }
    }

    /// Forgets the hex clicked last, so that the next click is a new one.
    pub fn clear_last_clicked(&mut self)
        ensures
            final(self).last.is_none(),
    {
        self.last = None;
    }

    /// Resolves a click on the board hex `h` and remembers `h`.
    pub fn resolve(&mut self, h: Hex) -> (r: ClickSignal)
        ensures
            r == click_signal(old(self).last, h),
            final(self).last == Some(h),
    {
        let r = match self.last {
            Some(x) => {
                if x == h {
                    ClickSignal::HexDoubleClicked(h)
                } else {
                    ClickSignal::NewTileClicked(h)
                }
            },
            None => ClickSignal::NewTileClicked(h),
        };
        self.last = Some(h);
        r
    }
}

/// Two clicks in a row on one hex give one double click, on the second: the
/// first is a double click only where that hex was already the last one
/// clicked.
pub proof fn lemma_second_click_is_double(last: Option<Hex>, h: Hex)
    ensures
        click_signal(Some(h), h) == ClickSignal::HexDoubleClicked(h),
        click_signal(last, h) == ClickSignal::HexDoubleClicked(h) <==> last == Some(h),
        click_signal(last, h) == ClickSignal::NewTileClicked(h) <==> last != Some(h),
{
}

/// A change of the hovered hex: the hex left, if any, and the hex entered.
#[derive(Clone, Copy, Debug, PartialEq, Eq, Structural)]
pub struct HoverChange {
    pub left: Option<Hex>,
    pub entered: Hex,
}

/// One-slot memory of the hex hovered last.
#[derive(Clone, Copy, Debug)]
pub struct HoverMemory {
    pub last: Option<Hex>,
}

impl HoverMemory {
    pub fn new() -> (r: HoverMemory)
        ensures
            r.last.is_none(),
    {
        HoverMemory { last: None }
    }

    /// The pointer is over the board hex `h`: entering a new hex moves the
    /// hover there, staying on the same hex changes nothing.
    pub fn enter(&mut self, h: Hex) -> (r: Option<HoverChange>)
        ensures
            old(self).last == Some(h) ==> r.is_none() && final(self).last == old(self).last,
            old(self).last != Some(h) ==> r == Some(HoverChange { left: old(self).last, entered: h })
                && final(self).last == Some(h),
    {
        if self.last == Some(h) {
            None
        } else {
            let left = self.last;
            self.last = Some(h);
            Some(HoverChange { left, entered: h })
        }
    }
}

} // verus!
