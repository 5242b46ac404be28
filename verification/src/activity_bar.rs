//! The vertical activity bar: one panel-button strip per dock, shown only for
//! docks that hold panels.
use vstd::prelude::*;

verus! {

/// The dock that a strip of panel buttons belongs to.
#[derive(Clone, Copy, Debug, PartialEq, Eq, Structural)]
pub enum DockPosition {
    Left,
    Bottom,
    Right,
}

/// The panel buttons of the left, bottom and right docks.
pub struct ActivityBar<B> {
    left: B,
    bottom: B,
    right: B,
}

/// The docks whose buttons the bar shows, top to bottom: left, bottom, right,
/// each only when its dock has panels.
pub open spec fn shown_docks(has_left: bool, has_bottom: bool, has_right: bool) -> Seq<DockPosition> {
    (if has_left {
        seq![DockPosition::Left]
    } else {
        Seq::empty()
    }) + (if has_bottom {
        seq![DockPosition::Bottom]
    } else {
        Seq::empty()
    }) + (if has_right {
        seq![DockPosition::Right]
    } else {
        Seq::empty()
    })
}

impl<B> ActivityBar<B> {
    /// The buttons of the left dock.
    pub closed spec fn left_buttons(&self) -> B {
        self.left
    }

    /// The buttons of the bottom dock.
    pub closed spec fn bottom_buttons(&self) -> B {
        self.bottom
    }

    /// The buttons of the right dock.
    pub closed spec fn right_buttons(&self) -> B {
        self.right
    }

    /// A bar over the three docks' buttons.
    pub fn new(left: B, bottom: B, right: B) -> (r: Self)
        ensures
            r.left_buttons() == left,
            r.bottom_buttons() == bottom,
            r.right_buttons() == right,
    {
        ActivityBar { left, bottom, right }
    }

    /// The buttons of one dock.
    pub fn buttons(&self, dock: DockPosition) -> (r: &B)
        ensures
            *r == match dock {
                DockPosition::Left => self.left_buttons(),
                DockPosition::Bottom => self.bottom_buttons(),
                DockPosition::Right => self.right_buttons(),
            },
    {
        match dock {
            DockPosition::Left => &self.left,
            DockPosition::Bottom => &self.bottom,
            DockPosition::Right => &self.right,
        }
    }

    /// The docks whose buttons the bar shows, given which docks have panels.
    pub fn render(&self, has_left: bool, has_bottom: bool, has_right: bool) -> (r: Vec<DockPosition>)
        ensures
            r@ == shown_docks(has_left, has_bottom, has_right),
    {
        let mut shown: Vec<DockPosition> = Vec::new();
        if has_left {
            shown.push(DockPosition::Left);
        }
        if has_bottom {
            shown.push(DockPosition::Bottom);
        }
        if has_right {
            shown.push(DockPosition::Right);
        }
        assert(shown@ =~= shown_docks(has_left, has_bottom, has_right));
        shown
    }
}

/// Each dock's buttons are shown exactly when that dock has panels, once
/// each, left before bottom before right.
pub proof fn law_render_shows_exactly_docks_with_panels(has_left: bool, has_bottom: bool, has_right: bool)
    ensures
        shown_docks(has_left, has_bottom, has_right).contains(DockPosition::Left) <==> has_left,
        shown_docks(has_left, has_bottom, has_right).contains(DockPosition::Bottom) <==> has_bottom,
        shown_docks(has_left, has_bottom, has_right).contains(DockPosition::Right) <==> has_right,
        shown_docks(has_left, has_bottom, has_right).no_duplicates(),
        has_left ==> shown_docks(has_left, has_bottom, has_right)[0] == DockPosition::Left,
        has_right ==> shown_docks(has_left, has_bottom, has_right).last() == DockPosition::Right,
{
    let s = shown_docks(has_left, has_bottom, has_right);
    let l: Seq<DockPosition> = if has_left { seq![DockPosition::Left] } else { Seq::empty() };
    let b: Seq<DockPosition> = if has_bottom { seq![DockPosition::Bottom] } else { Seq::empty() };
    let r: Seq<DockPosition> = if has_right { seq![DockPosition::Right] } else { Seq::empty() };
    assert(s == l + b + r);
    assert forall|i: int| 0 <= i < s.len() implies (s[i] == DockPosition::Left <==> i == 0 && has_left)
        && (s[i] == DockPosition::Bottom <==> has_bottom && i == l.len()) && (s[i]
        == DockPosition::Right <==> has_right && i == l.len() + b.len()) by {
        if i < l.len() {
            assert(s[i] == l[i]);
        } else if i < l.len() + b.len() {
            assert(s[i] == b[i - l.len()]);
        } else {
            assert(s[i] == r[i - l.len() - b.len()]);
        }
    }
    if has_left {
        assert(s[0] == DockPosition::Left);
    }
    if has_bottom {
        assert(s[l.len() as int] == DockPosition::Bottom);
    }
    if has_right {
        assert(s[(l.len() + b.len()) as int] == DockPosition::Right);
    }
}

} // verus!
