//! Pure state of the file editor: the swap window and display results

use vstd::prelude::*;
use crate::tim::{ColorsError, Tim};

verus! {

/// File setting status
#[derive(PartialEq, Eq, Clone, Debug)]
pub enum SwapFileStatus {
    /// Unset
    Unset,
    /// Setting
    Setting(Option<String>),
    /// Set to a path
    Chosen(String),
}

/// A file setting status, its paths as character sequences.
pub ghost enum SwapFileStatusView {
    /// Unset
    Unset,
    /// Setting, with the path that was set before, if any
    Setting(Option<Seq<char>>),
    /// Set to a path
    Chosen(Seq<char>),
}

impl View for SwapFileStatus {
    type V = SwapFileStatusView;

    open spec fn view(&self) -> SwapFileStatusView {
        match self {
            SwapFileStatus::Unset => SwapFileStatusView::Unset,
            SwapFileStatus::Setting(None) => SwapFileStatusView::Setting(None),
            SwapFileStatus::Setting(Some(s)) => SwapFileStatusView::Setting(Some(s@)),
            SwapFileStatus::Chosen(s) => SwapFileStatusView::Chosen(s@),
        }
    }
}

impl SwapFileStatusView {
    /// The status after a click on its button: an unset file starts being set,
    /// a file being set becomes set to the path chosen before (or unset if
    /// there was none), and a set file starts being set again, keeping its path.
    pub open spec fn toggled(self) -> SwapFileStatusView {
        match self {
            SwapFileStatusView::Unset => SwapFileStatusView::Setting(None),
            SwapFileStatusView::Setting(Some(s)) => SwapFileStatusView::Chosen(s),
            SwapFileStatusView::Setting(None) => SwapFileStatusView::Unset,
            SwapFileStatusView::Chosen(s) => SwapFileStatusView::Setting(Some(s)),
        }
    }

    /// The path of this status, if it has one.
    pub open spec fn path(self) -> Option<Seq<char>> {
        match self {
            SwapFileStatusView::Setting(s) => s,
            SwapFileStatusView::Chosen(s) => Some(s),
            SwapFileStatusView::Unset => None,
        }
    }
}

impl SwapFileStatus {
    /// Returns the button label for this status
    pub fn button_label(&mut self) -> (res: &str)
        ensures
            *final(self) == *old(self),
            old(self)@ is Setting ==> res@ == "..."@,
            !(old(self)@ is Setting) ==> res@ == "Set"@,
    {
        if self.is_setting() {
            "..."
        } else {
            "Set"
        }
    }

    /// Toggles the current setting
    pub fn toggle(&mut self)
        ensures
            final(self)@ == old(self)@.toggled(),
    {
        let mut cur = SwapFileStatus::Unset;
        std::mem::swap(&mut cur, self);
        *self = match cur {
            SwapFileStatus::Unset => SwapFileStatus::Setting(None),
            SwapFileStatus::Setting(s) => match s {
                Some(s) => SwapFileStatus::Chosen(s),
                None => SwapFileStatus::Unset,
            },
            SwapFileStatus::Chosen(s) => SwapFileStatus::Setting(Some(s)),
        };
    }

    /// Returns this status as a string
    pub fn as_str(&self) -> (res: Option<&str>)
        ensures
            match self@.path() {
                Some(p) => res is Some && res->Some_0@ == p,
                None => res is None,
            },
    {
        match self {
            SwapFileStatus::Setting(Some(s)) => Some(s.as_str()),
            SwapFileStatus::Chosen(s) => Some(s.as_str()),
            _ => None,
        }
    }

    /// Returns `true` if the swap_file_status is [`Setting`](SwapFileStatus::Setting).
    pub fn is_setting(&self) -> (res: bool)
        ensures
            res == self@ is Setting,
    {
        match self {
            SwapFileStatus::Setting(_) => true,
            _ => false,
        }
    }

    /// Returns `true` if the swap_file_status is [`Chosen`](SwapFileStatus::Chosen).
    pub fn is_set(&self) -> (res: bool)
        ensures
            res == self@ is Chosen,
    {
        match self {
            SwapFileStatus::Chosen(_) => true,
            _ => false,
        }
    }

    /// Returns `true` if the swap_file_status is [`Unset`](SwapFileStatus::Unset).
    pub fn is_unset(&self) -> (res: bool)
        ensures
            res == self@ is Unset,
    {
        match self {
            SwapFileStatus::Unset => true,
            _ => false,
        }
    }
}

impl Default for SwapFileStatus {
    fn default() -> (res: Self)
        ensures
            res@ == SwapFileStatusView::Unset,
    {
        SwapFileStatus::Unset
    }
}

/// Swap window
#[derive(PartialEq, Eq, Clone, Debug)]
pub struct SwapWindow {
    /// First file
    pub first: SwapFileStatus,
    /// Second file
    pub second: SwapFileStatus,
}

impl Default for SwapWindow {
    fn default() -> (res: Self)
        ensures
            res.first@ == SwapFileStatusView::Unset,
            res.second@ == SwapFileStatusView::Unset,
    {
        SwapWindow { first: SwapFileStatus::Unset, second: SwapFileStatus::Unset }
    }
}

/// The status after a file at `path` was clicked: a file being set becomes
/// set to it, any other status stays.
pub open spec fn clicked(status: SwapFileStatusView, path: Seq<char>) -> SwapFileStatusView {
    if status is Setting {
        SwapFileStatusView::Chosen(path)
    } else {
        status
    }
}

impl SwapWindow {
    /// On file click
    pub fn on_file_click(&mut self, path: &str)
        ensures
            final(self).first@ == clicked(old(self).first@, path@),
            final(self).second@ == clicked(old(self).second@, path@),
    {
        if self.first.is_setting() {
            self.first = SwapFileStatus::Chosen(path.to_owned());
        }
        if self.second.is_setting() {
            self.second = SwapFileStatus::Chosen(path.to_owned());
        }
    }
}

/// Display results
#[derive(PartialEq, Eq, Clone, Debug)]
pub struct DisplayResults {
    /// Preview path
    pub preview_path: Option<String>,
}

/// Clicking a status's button twice leaves it as it was.
pub proof fn lemma_toggle_twice(status: SwapFileStatusView)
    ensures
        status.toggled().toggled() == status,
{
}

/// The rgba colors of every pallette of `image`, in pallette order, which the
/// preview panel turns into one texture each; the error of the first pallette
/// whose colors cannot be had.
pub fn image_pallettes_colors(image: &Tim) -> (res: Result<Vec<Vec<[u8; 4]>>, ColorsError>)
    ensures
        match res {
            Ok(pallettes) => pallettes@.len() == image@.spec_pallettes() && forall|p: int|
                0 <= p < pallettes@.len() ==> image@.spec_colors(Some(p as usize)) == Ok::<Seq<[u8; 4]>, ColorsError>(
                    #[trigger] pallettes@[p]@,
                ),
            Err(e) => exists|p: int|
                0 <= p < image@.spec_pallettes() && #[trigger] image@.spec_colors(Some(p as usize)) == Err::<Seq<[u8; 4]>, ColorsError>(e)
                    && forall|q: int| 0 <= q < p ==> (#[trigger] image@.spec_colors(Some(q as usize))) is Ok,
        },
{
    let n = image.pallettes();
    let mut pallettes: Vec<Vec<[u8; 4]>> = Vec::new();
    let mut p: usize = 0;
    while p < n
        invariant
            n == image@.spec_pallettes(),
            p <= n,
            pallettes@.len() == p,
            forall|q: int| 0 <= q < p ==> image@.spec_colors(Some(q as usize)) == Ok::<Seq<[u8; 4]>, ColorsError>(
                #[trigger] pallettes@[q]@,
            ),
        decreases n - p,
    {
        match image.colors(Some(p)) {
            Ok(colors) => pallettes.push(colors),
            Err(e) => {
                assert forall|q: int| 0 <= q < p implies (#[trigger] image@.spec_colors(Some(q as usize))) is Ok by {
                    assert(image@.spec_colors(Some(q as usize)) == Ok::<Seq<[u8; 4]>, ColorsError>(pallettes@[q]@));
                }
                assert(image@.spec_colors(Some((p as int) as usize)) == Err::<Seq<[u8; 4]>, ColorsError>(e));
                return Err(e);
            },
        }
        p = p + 1;
    }
    Ok(pallettes)
}

} // verus!
