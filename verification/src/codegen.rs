//! The decisions behind the generation of widget code: fresh identifiers,
//! the split of a widget's arguments, the render methods, and which inputs
//! each form of the macro accepts.
use vstd::prelude::*;
use vstd::string::StringExecFns;
use crate::text::{decimal, string_of, usize_to_string};

verus! {

/// The source of fresh identifiers: the number it hands out next.
pub struct IdCounter {
    next: u32,
}

impl View for IdCounter {
    type V = u32;

    closed spec fn view(&self) -> u32 {
        self.next
    }
}

impl IdCounter {
    /// A counter that starts at 0.
    pub fn new() -> (r: Self)
        ensures
            r@ == 0,
    {
        IdCounter { next: 0 }
    }
}

/// The number after `n`, wrapping from `u32::MAX` to 0.
pub open spec fn next_id(n: u32) -> u32 {
    if n == u32::MAX { 0 } else { (n + 1) as u32 }
}

/// Hands out the counter's number and moves it on, wrapping after `u32::MAX`.
pub fn generate_unique_id(counter: &mut IdCounter) -> (r: u32)
    ensures
        r == old(counter)@,
        final(counter)@ == next_id(old(counter)@),
{
    let r = counter.next;
    counter.next = counter.next.wrapping_add(1);
    r
}

/// The id handed out by the `k`-th call (counting from 0) on a counter that
/// starts at `start`.
pub open spec fn nth_id(start: u32, k: nat) -> u32 {
    ((start + k) % 0x1_0000_0000) as u32
}

/// Each call hands out the id after the one the previous call handed out.
pub proof fn ids_follow_on(start: u32, k: nat)
    ensures
        next_id(nth_id(start, k)) == nth_id(start, k + 1),
{
    assert((start + k + 1) % 0x1_0000_0000 == if (start + k) % 0x1_0000_0000 == 0xffff_ffff {
        0
    } else {
        (start + k) % 0x1_0000_0000 + 1
    }) by (nonlinear_arith);
}

/// The ids of up to `u32::MAX + 1` successive calls are all different.
pub proof fn ids_are_unique(start: u32, i: nat, j: nat)
    requires
        i < j < 0x1_0000_0000,
    ensures
        nth_id(start, i) != nth_id(start, j),
{
    assert((start + i) % 0x1_0000_0000 != (start + j) % 0x1_0000_0000) by (nonlinear_arith)
        requires
            i < j < 0x1_0000_0000,
            0 <= start < 0x1_0000_0000,
    {
    }
}

/// The name `prefix_n` of a generated variable.
pub fn numbered_ident(prefix: &str, n: usize) -> (r: String)
    ensures
        r@ == prefix@ + "_"@ + decimal(n as nat),
{
    let mut r = string_of(prefix);
    r.append("_");
    let d = usize_to_string(n);
    r.append(d.as_str());
    r
}

/// The render method of a widget and that of the frame: the by-reference
/// ones for widgets rendered by reference.
pub fn get_render_method(render_ref: bool) -> (r: (&'static str, &'static str))
    ensures
        render_ref ==> r.0@ == "render_ref"@ && r.1@ == "render_widget_ref"@,
        !render_ref ==> r.0@ == "render"@ && r.1@ == "render_widget"@,
{
    if render_ref {
        ("render_ref", "render_widget_ref")
    } else {
        ("render", "render_widget")
    }
}

/// The constructor a widget is built with: the one named, else `default`.
pub fn constructor_name(named: Option<&str>) -> (r: String)
    ensures
        r@ == (match named {
            Some(n) => n@,
            None => "default"@,
        }),
{
    match named {
        Some(n) => string_of(n),
        None => string_of("default"),
    }
}

/// Where a widget stands in the tree whose code is generated.
#[derive(Copy, Clone, Debug)]
pub struct WidgetHandlerOptions {
    pub is_top_level: bool,
    pub parent_id: usize,
    pub child_index: usize,
}

impl WidgetHandlerOptions {
    /// The position of a widget: whether it is the root, the id of its parent
    /// layout, and its index among its siblings.
    pub fn new(is_top_level: bool, parent_id: usize, child_index: usize) -> (r: Self)
        ensures
            r.is_top_level == is_top_level,
            r.parent_id == parent_id,
            r.child_index == child_index,
    {
        WidgetHandlerOptions { is_top_level, parent_id, child_index }
    }
}

} // verus!
