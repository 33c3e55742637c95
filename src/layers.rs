use vstd::prelude::*;

verus! {

/// The rendering layers, stacked from the base tiles up.
#[allow(non_camel_case_types)]
#[derive(Clone, Copy, Debug, PartialEq, Eq, Structural, Hash)]
pub enum MapLayer {
    BASE,
    ACTIVATED,
    SELECTED,
    HOVERED,
}

impl Default for MapLayer {
    fn default() -> (r: MapLayer)
        ensures
            r == MapLayer::BASE,
    {
        MapLayer::BASE
    }
}

pub open spec fn layer_id(l: MapLayer) -> u32 {
    match l {
        MapLayer::BASE => 0,
        MapLayer::ACTIVATED => 1,
        MapLayer::SELECTED => 2,
        MapLayer::HOVERED => 3,
    }
}

pub open spec fn layer_name(l: MapLayer) -> Seq<char> {
    match l {
        MapLayer::BASE => "Base"@,
        MapLayer::ACTIVATED => "Activated"@,
        MapLayer::SELECTED => "Selected"@,
        MapLayer::HOVERED => "Hovered"@,
    }
}

pub open spec fn layer_texture(l: MapLayer) -> Seq<char> {
    match l {
        MapLayer::BASE => "grass-tile.png"@,
        MapLayer::ACTIVATED => "activated-tile.png"@,
        MapLayer::SELECTED => "selected-tile.png"@,
        MapLayer::HOVERED => "hovered-tile.png"@,
    }
}

impl MapLayer {
    /// All layers, in the order in which they are set up.
    pub fn iterator() -> (r: Vec<MapLayer>)
        ensures
            r@ == seq![MapLayer::BASE, MapLayer::HOVERED, MapLayer::ACTIVATED, MapLayer::SELECTED],
    {
        let r = vec![MapLayer::BASE, MapLayer::HOVERED, MapLayer::ACTIVATED, MapLayer::SELECTED];
        assert(r@ =~= seq![MapLayer::BASE, MapLayer::HOVERED, MapLayer::ACTIVATED, MapLayer::SELECTED]);
        r
    }

    /// The layer's display name.
    pub fn to_string(&self) -> (r: String)
        ensures
            r@ == layer_name(*self),
    {
        match self {
            MapLayer::BASE => String::from_str("Base"),
            MapLayer::ACTIVATED => String::from_str("Activated"),
            MapLayer::SELECTED => String::from_str("Selected"),
            MapLayer::HOVERED => String::from_str("Hovered"),
        }
    }

    /// The layer with stacking order `id`, if there is one.
    pub fn from_id(id: u32) -> (r: Option<MapLayer>)
        ensures
            r matches Some(l) ==> layer_id(l) == id,
            r.is_some() <==> id <= 3,
    {
        match id {
            0 => Some(MapLayer::BASE),
            1 => Some(MapLayer::ACTIVATED),
            2 => Some(MapLayer::SELECTED),
            3 => Some(MapLayer::HOVERED),
            _ => None,
        }
    }

    /// The layer's stacking order, from 0 at the base.
    pub fn to_id(self) -> (r: u32)
        ensures
            r == layer_id(self),
    {
        match self {
            MapLayer::BASE => 0,
            MapLayer::ACTIVATED => 1,
            MapLayer::SELECTED => 2,
            MapLayer::HOVERED => 3,
        }
    }

    /// File name of the image that the layer's tiles are drawn with.
    pub fn get_texture(self) -> (r: String)
        ensures
            r@ == layer_texture(self),
    {
        match self {
            MapLayer::BASE => String::from_str("grass-tile.png"),
            MapLayer::ACTIVATED => String::from_str("activated-tile.png"),
            MapLayer::SELECTED => String::from_str("selected-tile.png"),
            MapLayer::HOVERED => String::from_str("hovered-tile.png"),
        }
    }
}

} // verus!
