use vstd::prelude::*;

verus! {

/// The axis along which a list scrolls.
#[derive(Clone, Copy, Debug, PartialEq, Eq, Default)]
pub enum ScrollAxis {
    /// Items are stacked top to bottom.
    #[default]
    Vertical,
    /// Items are placed left to right.
    Horizontal,
}

/// The context provided to an item just before it is drawn.
///
/// It provides a set of information that can be used from [`PreRender::pre_render`].
#[derive(Clone, Debug)]
pub struct PreRenderContext {
    /// Indicates whether the item is selected.
    pub is_selected: bool,
    /// The cross axis size of the item.
    pub cross_axis_size: u16,
    /// The list's scroll axis.
    pub scroll_axis: ScrollAxis,
    /// The index of the item in the list.
    pub index: usize,
}

impl PreRenderContext {
    /// A context for the item at `index`.
    pub fn new(
        is_selected: bool,
        cross_axis_size: u16,
        scroll_axis: ScrollAxis,
        index: usize,
    ) -> (r: Self)
        ensures
            r.is_selected == is_selected,
            r.cross_axis_size == cross_axis_size,
            r.scroll_axis == scroll_axis,
            r.index == index,
    {
        PreRenderContext { is_selected, cross_axis_size, scroll_axis, index }
    }
}

/// Implemented by items that are shown in a list.
pub trait PreRender {
    /// Called before the item is drawn. The item may change itself according
    /// to `context` (for instance restyle itself when selected) and returns
    /// its size along the list's main axis, which drives the layout.
    fn pre_render(&mut self, context: &PreRenderContext) -> u16;
}

} // verus!
