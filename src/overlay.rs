use vstd::prelude::*;
use crate::hex::Hex;
use crate::layers::MapLayer;
use crate::game::Game;

verus! {

/// One piece of visual bookkeeping: spawn or despawn the overlay tile of
/// `hex` on `layer`.
#[derive(Clone, Copy, Debug, PartialEq, Eq, Structural)]
pub struct OverlayChange {
    pub layer: MapLayer,
    pub hex: Hex,
    pub spawn: bool,
}

/// The overlay tiles that exist on each dynamic layer.
pub struct Overlays {
    pub activated: Vec<Hex>,
    pub selected: Vec<Hex>,
    pub hovered: Vec<Hex>,
}

/// The changes that take the overlay tiles `cur` of `layer` to `want`.
pub open spec fn diff_changes(layer: MapLayer, cur: Set<Hex>, want: Set<Hex>) -> Set<OverlayChange> {
    Set::new(
        |c: OverlayChange|
            c.layer == layer && ((c.spawn && want.contains(c.hex) && !cur.contains(c.hex)) || (!c.spawn
                && cur.contains(c.hex) && !want.contains(c.hex))),
    )
}

pub open spec fn option_set(o: Option<Hex>) -> Set<Hex> {
    match o {
        Some(h) => set![h],
        None => Set::empty(),
    }
}

/// Whether `v` holds `h`.
pub fn contains_hex(v: &Vec<Hex>, h: Hex) -> (r: bool)
    ensures
        r == v@.contains(h),
{
    let mut i: usize = 0;
    while i < v.len()
        invariant
            i <= v@.len(),
            forall|j: int| 0 <= j < i ==> v@[j] != h,
        decreases v@.len() - i,
    {
        if v[i] == h {
            assert(v@.contains(h));
            return true;
        }
        i = i + 1;
    }
    false
}

/// Brings the overlay tiles `current` of `layer` in line with the tiles
/// `wanted` that hold the layer's flag: despawns those whose flag went,
/// spawns those whose flag came, and records each change.
pub fn sync_layer(layer: MapLayer, current: &mut Vec<Hex>, wanted: &Vec<Hex>, changes: &mut Vec<OverlayChange>)
    requires
        old(current)@.no_duplicates(),
        wanted@.no_duplicates(),
    ensures
        final(current)@.no_duplicates(),
        final(current)@.to_set() == wanted@.to_set(),
        final(changes)@.len() >= old(changes)@.len(),
        final(changes)@.subrange(0, old(changes)@.len() as int) == old(changes)@,
        final(changes)@.subrange(old(changes)@.len() as int, final(changes)@.len() as int).to_set()
            == diff_changes(layer, old(current)@.to_set(), wanted@.to_set()),
{
    let ghost start = changes@.len();
    let ghost cur = current@;
    let ghost want = wanted@;
    let mut kept: Vec<Hex> = Vec::new();
    let mut i: usize = 0;
    while i < current.len()
        invariant
            i <= cur.len(),
            current@ == cur,
            wanted@ == want,
            cur.no_duplicates(),
            kept@.no_duplicates(),
            changes@.len() >= start,
            changes@.subrange(0, start as int) == old(changes)@,
            forall|x: Hex| #[trigger] kept@.contains(x) <==> (cur.subrange(0, i as int).contains(x) && want.contains(x)),
            forall|c: OverlayChange| #[trigger] changes@.subrange(start as int, changes@.len() as int).contains(c)
                <==> (c.layer == layer && !c.spawn && cur.subrange(0, i as int).contains(c.hex) && !want.contains(c.hex)),
        decreases cur.len() - i,
    {
        let h = current[i];
        let ghost pre = cur.subrange(0, i as int);
        let ghost post = cur.subrange(0, i + 1);
        assert(post == pre.push(h));
        assert(!pre.contains(h)) by {
            if pre.contains(h) {
                let j = choose|j: int| 0 <= j < pre.len() && pre[j] == h;
                assert(cur[j] == cur[i as int]);
            }
        }
        let ghost old_kept = kept@;
        let ghost old_new = changes@.subrange(start as int, changes@.len() as int);
        assert(forall|x: Hex| #[trigger] old_kept.contains(x) <==> (pre.contains(x) && want.contains(x)));
        assert(forall|c: OverlayChange| #[trigger] old_new.contains(c)
            <==> (c.layer == layer && !c.spawn && pre.contains(c.hex) && !want.contains(c.hex)));
        let w = contains_hex(wanted, h);
        if w {
            assert(!old_kept.contains(h));
            kept.push(h);
            assert(kept@ == old_kept.push(h));
        } else {
            changes.push(OverlayChange { layer, hex: h, spawn: false });
            assert(changes@.subrange(start as int, changes@.len() as int) == old_new.push(OverlayChange { layer, hex: h, spawn: false }));
            assert(changes@.subrange(0, start as int) == old(changes)@);
        }
        assert(kept@ == if w { old_kept.push(h) } else { old_kept });
        assert(changes@.subrange(start as int, changes@.len() as int) == if w { old_new } else {
            old_new.push(OverlayChange { layer, hex: h, spawn: false })
        });
        assert forall|x: Hex| #[trigger] kept@.contains(x) <==> (post.contains(x) && want.contains(x)) by {
            lemma_push_contains(pre, h, x);
            lemma_push_contains(old_kept, h, x);
        }
        assert forall|c: OverlayChange| #[trigger] changes@.subrange(start as int, changes@.len() as int).contains(c)
            <==> (c.layer == layer && !c.spawn && post.contains(c.hex) && !want.contains(c.hex)) by {
            lemma_push_contains(pre, h, c.hex);
            lemma_push_contains_change(old_new, OverlayChange { layer, hex: h, spawn: false }, c);
        }
        i = i + 1;
    }
    assert(cur.subrange(0, i as int) == cur);
    let ghost mid = changes@.len();
    let ghost despawns = changes@.subrange(start as int, mid as int);
    let mut k: usize = 0;
    while k < wanted.len()
        invariant
            k <= want.len(),
            wanted@ == want,
            current@ == cur,
            want.no_duplicates(),
            kept@.no_duplicates(),
            start <= mid <= changes@.len(),
            changes@.subrange(0, start as int) == old(changes)@,
            changes@.subrange(start as int, mid as int) == despawns,
            forall|x: Hex| #[trigger] kept@.contains(x) <==> ((cur.contains(x) && want.contains(x)) || want.subrange(0, k as int).contains(x)),
            forall|c: OverlayChange| #[trigger] changes@.subrange(mid as int, changes@.len() as int).contains(c)
                <==> (c.layer == layer && c.spawn && want.subrange(0, k as int).contains(c.hex) && !cur.contains(c.hex)),
        decreases want.len() - k,
    {
        let h = wanted[k];
        let ghost pre = want.subrange(0, k as int);
        let ghost post = want.subrange(0, k + 1);
        assert(post == pre.push(h));
        assert(!pre.contains(h)) by {
            if pre.contains(h) {
                let j = choose|j: int| 0 <= j < pre.len() && pre[j] == h;
                assert(want[j] == want[k as int]);
            }
        }
        let ghost old_kept = kept@;
        let ghost old_new = changes@.subrange(mid as int, changes@.len() as int);
        assert(forall|x: Hex| #[trigger] old_kept.contains(x) <==> ((cur.contains(x) && want.contains(x)) || pre.contains(x)));
        assert(forall|c: OverlayChange| #[trigger] old_new.contains(c)
            <==> (c.layer == layer && c.spawn && pre.contains(c.hex) && !cur.contains(c.hex)));
        let present = contains_hex(current, h);
        if !present {
            assert(!old_kept.contains(h));
            kept.push(h);
            assert(kept@ == old_kept.push(h));
            changes.push(OverlayChange { layer, hex: h, spawn: true });
            assert(changes@.subrange(mid as int, changes@.len() as int) == old_new.push(OverlayChange { layer, hex: h, spawn: true }));
            assert(changes@.subrange(0, start as int) == old(changes)@);
            assert(changes@.subrange(start as int, mid as int) == despawns);
        }
        assert(kept@ == if !present { old_kept.push(h) } else { old_kept });
        assert(changes@.subrange(mid as int, changes@.len() as int) == if !present {
            old_new.push(OverlayChange { layer, hex: h, spawn: true })
        } else { old_new });
        assert forall|x: Hex| #[trigger] kept@.contains(x) <==> ((cur.contains(x) && want.contains(x)) || post.contains(x)) by {
            lemma_push_contains(pre, h, x);
            lemma_push_contains(old_kept, h, x);
        }
        assert forall|c: OverlayChange| #[trigger] changes@.subrange(mid as int, changes@.len() as int).contains(c)
            <==> (c.layer == layer && c.spawn && post.contains(c.hex) && !cur.contains(c.hex)) by {
            lemma_push_contains(pre, h, c.hex);
            lemma_push_contains_change(old_new, OverlayChange { layer, hex: h, spawn: true }, c);
        }
        k = k + 1;
    }
    assert(want.subrange(0, k as int) == want);
    let ghost all_new = changes@.subrange(start as int, changes@.len() as int);
    assert(all_new == despawns + changes@.subrange(mid as int, changes@.len() as int));
    assert forall|c: OverlayChange| #[trigger] all_new.to_set().contains(c)
        <==> diff_changes(layer, cur.to_set(), want.to_set()).contains(c) by {
        lemma_concat_contains(despawns, changes@.subrange(mid as int, changes@.len() as int), c);
    }
    assert(all_new.to_set() =~= diff_changes(layer, cur.to_set(), want.to_set()));
    assert forall|x: Hex| #[trigger] kept@.to_set().contains(x) <==> want.to_set().contains(x) by {}
    assert(kept@.to_set() =~= want.to_set());
    *current = kept;
}

proof fn lemma_push_contains(s: Seq<Hex>, h: Hex, x: Hex)
    ensures
        s.push(h).contains(x) <==> (s.contains(x) || x == h),
{
    if s.push(h).contains(x) && x != h {
        let j = choose|j: int| 0 <= j < s.push(h).len() && s.push(h)[j] == x;
        assert(s[j] == x);
    }
    if s.contains(x) {
        let j = choose|j: int| 0 <= j < s.len() && s[j] == x;
        assert(s.push(h)[j] == x);
    }
    if x == h {
        assert(s.push(h)[s.len() as int] == x);
    }
}

proof fn lemma_push_contains_change(s: Seq<OverlayChange>, h: OverlayChange, x: OverlayChange)
    ensures
        s.push(h).contains(x) <==> (s.contains(x) || x == h),
{
    if s.push(h).contains(x) && x != h {
        let j = choose|j: int| 0 <= j < s.push(h).len() && s.push(h)[j] == x;
        assert(s[j] == x);
    }
    if s.contains(x) {
        let j = choose|j: int| 0 <= j < s.len() && s[j] == x;
        assert(s.push(h)[j] == x);
    }
    if x == h {
        assert(s.push(h)[s.len() as int] == x);
    }
}

proof fn lemma_concat_contains(a: Seq<OverlayChange>, b: Seq<OverlayChange>, x: OverlayChange)
    ensures
        (a + b).contains(x) <==> (a.contains(x) || b.contains(x)),
{
    if (a + b).contains(x) {
        let j = choose|j: int| 0 <= j < (a + b).len() && (a + b)[j] == x;
        if j < a.len() {
            assert(a[j] == x);
        } else {
            assert(b[j - a.len()] == x);
        }
    }
    if a.contains(x) {
        let j = choose|j: int| 0 <= j < a.len() && a[j] == x;
        assert((a + b)[j] == x);
    }
    if b.contains(x) {
        let j = choose|j: int| 0 <= j < b.len() && b[j] == x;
        assert((a + b)[a.len() + j] == x);
    }
}


fn option_vec(o: Option<Hex>) -> (r: Vec<Hex>)
    ensures
        r@.no_duplicates(),
        r@.to_set() == option_set(o),
{
    match o {
        Some(h) => {
            let r = vec![h];
            assert(r@.to_set() =~= set![h]) by {
                assert(r@[0] == h);
            }
            r
        },
        None => {
            let r: Vec<Hex> = Vec::new();
            assert(r@.to_set() =~= Set::<Hex>::empty());
            r
        },
    }
}

impl Overlays {
    pub open spec fn wf(&self) -> bool {
        &&& self.activated@.no_duplicates()
        &&& self.selected@.no_duplicates()
        &&& self.hovered@.no_duplicates()
    }

    /// No overlay tile on any layer.
    pub fn new() -> (r: Overlays)
        ensures
            r.wf(),
            r.activated@.len() == 0,
            r.selected@.len() == 0,
            r.hovered@.len() == 0,
    {
        Overlays { activated: Vec::new(), selected: Vec::new(), hovered: Vec::new() }
    }
}

impl Game {
    /// Brings the overlay tiles of the activated, selected and hovered layers
    /// in line with the flags that the base tiles hold, and returns the
    /// spawns and despawns that took.
    pub fn sync_overlays(&self, overlays: &mut Overlays) -> (r: Vec<OverlayChange>)
        requires
            self.wf(),
            old(overlays).wf(),
        ensures
            final(overlays).wf(),
            final(overlays).activated@.to_set() == self@.activated,
            final(overlays).selected@.to_set() == option_set(self@.selected_tile),
            final(overlays).hovered@.to_set() == option_set(self@.hovered),
            r@.to_set() == diff_changes(MapLayer::ACTIVATED, old(overlays).activated@.to_set(), self@.activated)
                .union(diff_changes(MapLayer::SELECTED, old(overlays).selected@.to_set(), option_set(self@.selected_tile)))
                .union(diff_changes(MapLayer::HOVERED, old(overlays).hovered@.to_set(), option_set(self@.hovered))),
    {
        let mut changes: Vec<OverlayChange> = Vec::new();
        sync_layer(MapLayer::ACTIVATED, &mut overlays.activated, &self.activated, &mut changes);
        let ghost c1 = changes@;
        let selected = option_vec(self.selected_tile);
        sync_layer(MapLayer::SELECTED, &mut overlays.selected, &selected, &mut changes);
        let ghost c2 = changes@;
        let hovered = option_vec(self.hover.last);
        sync_layer(MapLayer::HOVERED, &mut overlays.hovered, &hovered, &mut changes);
        proof {
            let a = c1;
            let b = c2.subrange(c1.len() as int, c2.len() as int);
            let c = changes@.subrange(c2.len() as int, changes@.len() as int);
            assert(c1.subrange(0, 0) =~= Seq::<OverlayChange>::empty());
            assert(c1 =~= c1.subrange(0, c1.len() as int));
            assert(c2 =~= a + b);
            assert(changes@ =~= (a + b) + c);
            assert forall|x: OverlayChange| #[trigger] changes@.to_set().contains(x)
                <==> (a.to_set().contains(x) || b.to_set().contains(x) || c.to_set().contains(x)) by {
                lemma_concat_contains(a + b, c, x);
                lemma_concat_contains(a, b, x);
            }
        }
        assert(changes@.to_set() =~= diff_changes(MapLayer::ACTIVATED, old(overlays).activated@.to_set(), self@.activated)
            .union(diff_changes(MapLayer::SELECTED, old(overlays).selected@.to_set(), option_set(self@.selected_tile)))
            .union(diff_changes(MapLayer::HOVERED, old(overlays).hovered@.to_set(), option_set(self@.hovered))));
        changes
    }
}

} // verus!
