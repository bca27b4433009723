//! Where pictures go: into a window, or to whoever takes frames.
use vstd::prelude::*;

verus! {

/// The window that a handle names: none is named by no handle, nor by a handle of zero.
pub open spec fn named_window(hwnd: Option<isize>) -> Option<isize> {
    match hwnd {
        Some(h) if h != 0 => hwnd,
        _ => None,
    }
}

/// The window that a handle names: none is named by no handle, nor by a handle of zero.
pub fn window_of(hwnd: Option<isize>) -> (r: Option<isize>)
    ensures
        r == named_window(hwnd),
{
    match hwnd {
        Some(h) => if h != 0 {
            hwnd
        } else {
            None
        },
        None => None,
    }
}

/// What to do with a picture.
#[derive(Clone, Copy, Debug, PartialEq, Eq, Structural)]
pub enum PictureStep {
    /// A bitmap is made of it for the window.
    MakeBitmap,
    /// It is copied into the bitmap of the window.
    FillBitmap,
    /// It is sent to whoever takes frames.
    Send,
}

/// Where pictures go.
#[derive(Clone, Copy, Debug, PartialEq, Eq, Structural)]
pub struct Display {
    /// There is a window to draw into.
    pub has_window: bool,
    /// The window has a bitmap.
    pub has_bitmap: bool,
}

impl Display {
    /// A bitmap belongs to a window.
    pub open spec fn wf(self) -> bool {
        self.has_bitmap ==> self.has_window
    }

    /// What to do with a picture.
    pub open spec fn step(self) -> PictureStep {
        if !self.has_window {
            PictureStep::Send
        } else if self.has_bitmap {
            PictureStep::FillBitmap
        } else {
            PictureStep::MakeBitmap
        }
    }

    /// The display after the attempt to make a bitmap.
    pub open spec fn after_bitmap(self, made: bool) -> Display {
        Display { has_bitmap: made, ..self }
    }

    /// The display after the attempt to draw: a window that cannot be drawn into is given up.
    pub open spec fn after_draw(self, drawn: bool) -> Display {
        if drawn {
            self
        } else {
            Display { has_window: false, has_bitmap: false }
        }
    }

    /// A display whose window was opened, or that has none.
    pub fn new(window_opened: bool) -> (r: Display)
        ensures
            r == (Display { has_window: window_opened, has_bitmap: false }),
            r.wf(),
    {
        Display { has_window: window_opened, has_bitmap: false }
    }

    /// What to do with a picture.
    pub fn picture_step(&self) -> (r: PictureStep)
        ensures
            r == self.step(),
    {
        if !self.has_window {
            PictureStep::Send
        } else if self.has_bitmap {
            PictureStep::FillBitmap
        } else {
            PictureStep::MakeBitmap
        }
    }

    /// Takes note of whether a bitmap could be made. The result says whether to draw it; without one,
    /// the next picture is tried.
    pub fn on_bitmap(&mut self, made: bool) -> (r: bool)
        ensures
            *final(self) == old(self).after_bitmap(made),
            r == made,
    {
        self.has_bitmap = made;
        made
    }

    /// Takes note of whether the window could be drawn into.
    pub fn on_draw(&mut self, drawn: bool)
        ensures
            *final(self) == old(self).after_draw(drawn),
    {
        if !drawn {
            self.has_window = false;
            self.has_bitmap = false;
        }
    }
}

/// Pictures go into the window as long as it can be drawn into, and are sent from the first failure
/// on.
pub proof fn law_failed_window_is_given_up(d: Display, made: bool)
    requires
        d.wf(),
    ensures
        d.after_draw(false).step() == PictureStep::Send,
        d.after_draw(true) == d,
        d.has_window ==> d.after_bitmap(made).step() != PictureStep::Send && d.after_bitmap(
            made,
        ).wf(),
        d.after_draw(false).wf(),
{
}

/// A handle that is not zero names the window it is the handle of, and no other.
pub proof fn law_handles_name_their_window(hwnd: isize)
    ensures
        hwnd != 0 ==> named_window(Some(hwnd)) == Some(hwnd),
        named_window(Some(0)) is None,
        named_window(None) is None,
{
}

/// A picture goes to the window while there is one: into its bitmap where it has one, and a bitmap is
/// made where it has none. Without a window it is sent on.
pub proof fn law_pictures_go_to_the_window(d: Display, made: bool, drawn: bool)
    ensures
        d.step() is Send <==> !d.has_window,
        d.has_window ==> (d.step() is FillBitmap <==> d.has_bitmap),
        d.has_window ==> (d.after_bitmap(made).step() is FillBitmap <==> made),
        d.after_bitmap(made).has_window == d.has_window,
        drawn ==> d.after_draw(drawn) == d,
        !drawn ==> !d.after_draw(drawn).has_window && !d.after_draw(drawn).has_bitmap,
{
}

} // verus!
