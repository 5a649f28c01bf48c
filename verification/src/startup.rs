//! The one-shot startup hook: after the main window exists, inspect the
//! immutable launch arguments and, when the exact flag `--fullscreen` is
//! among them, put the main window into fullscreen mode.
//!
//! Live windows are modeled as a registry looked up by label; a hook that
//! finds no window under the wanted label is a no-op and never aborts
//! startup.

use vstd::pervasive::VecAdditionalExecFns;
use vstd::prelude::*;
use vstd::string::StringExecFns;

verus! {

/// Whether the launch arguments carry the exact token `--fullscreen`, in
/// any position. No abbreviation and no value form is recognized.
pub open spec fn has_fullscreen_flag(args: Seq<Seq<char>>) -> bool {
    exists|i: int| 0 <= i < args.len() && args[i] == "--fullscreen"@
}

/// Reads the launch arguments for the fullscreen flag.
pub fn wants_fullscreen(args: &Vec<String>) -> (r: bool)
    ensures
        r == has_fullscreen_flag(args.deep_view()),
{
    let flag = String::from_str("--fullscreen");
    let n: usize = args.len();
    let mut i: usize = 0;
    while i < n
        invariant
            n == args.len(),
            i <= n,
            flag@ == "--fullscreen"@,
            forall|j: int| 0 <= j < i ==> args.deep_view()[j] != "--fullscreen"@,
        decreases n - i,
    {
        let a = &args[i];
        if *a == flag {
            proof {
                assert(args.deep_view()[i as int] == "--fullscreen"@);
            }
            return true;
        }
        i += 1;
    }
    false
}

/// One live application window, as the hook sees it: its label and its
/// fullscreen display state.
pub struct Window {
    pub label: String,
    pub fullscreen: bool,
}

/// The ghost image of a window.
pub ghost struct WindowModel {
    pub label: Seq<char>,
    pub fullscreen: bool,
}

impl View for Window {
    type V = WindowModel;

    open spec fn view(&self) -> WindowModel {
        WindowModel { label: self.label@, fullscreen: self.fullscreen }
    }
}

impl DeepView for Window {
    type V = WindowModel;

    open spec fn deep_view(&self) -> WindowModel {
        self@
    }
}

/// Where `label` first answers a lookup in the registry, if anywhere.
pub open spec fn find_window_from(windows: Seq<WindowModel>, label: Seq<char>, i: int) -> Option<
    int,
>
    decreases windows.len() - i,
{
    if i < 0 || i >= windows.len() {
        None
    } else if windows[i].label == label {
        Some(i)
    } else {
        find_window_from(windows, label, i + 1)
    }
}

/// First registry index whose window carries `label`, if any.
pub open spec fn find_window(windows: Seq<WindowModel>, label: Seq<char>) -> Option<int> {
    find_window_from(windows, label, 0)
}

/// The registry of live windows, looked up by label.
pub struct WindowRegistry {
    windows: Vec<Window>,
}

impl View for WindowRegistry {
    type V = Seq<WindowModel>;

    closed spec fn view(&self) -> Seq<WindowModel> {
        self.windows.deep_view()
    }
}

impl WindowRegistry {
    /// A registry with no windows.
    pub fn new() -> (r: WindowRegistry)
        ensures
            r@ == Seq::<WindowModel>::empty(),
    {
        let r = WindowRegistry { windows: Vec::new() };
        proof {
            assert(r@ =~= Seq::<WindowModel>::empty());
        }
        r
    }

    /// Registers one more window behind the existing ones.
    pub fn register(&mut self, window: Window)
        ensures
            final(self)@ == old(self)@.push(window@),
    {
        let ghost prior = self@;
        let ghost image = window@;
        self.windows.push(window);
        proof {
            assert(self@ =~= prior.push(image));
        }
    }

    /// The display state of the first window under `label`, if any.
    pub fn is_fullscreen(&self, label: &str) -> (r: Option<bool>)
        ensures
            match find_window(self@, label@) {
                Some(i) => r == Some(self@[i].fullscreen),
                None => r is None,
            },
    {
        let lbl = label.to_owned();
        let n: usize = self.windows.len();
        let mut i: usize = 0;
        while i < n
            invariant
                n == self.windows.len(),
                i <= n,
                lbl@ == label@,
                self@.len() == n,
                find_window(self@, label@) == find_window_from(self@, label@, i as int),
            decreases n - i,
        {
            let w = &self.windows[i];
            proof {
                assert(self@[i as int] == w@);
            }
            if w.label == lbl {
                return Some(w.fullscreen);
            }
            i += 1;
        }
        None
    }

    /// Requests fullscreen state `value` for the first window under
    /// `label`. Returns whether such a window was found; a registry with
    /// no such window is left untouched.
    pub fn set_fullscreen(&mut self, label: &str, value: bool) -> (found: bool)
        ensures
            match find_window(old(self)@, label@) {
                Some(i) => found && final(self)@ == old(self)@.update(
                    i,
                    WindowModel { label: old(self)@[i].label, fullscreen: value },
                ),
                None => !found && final(self)@ == old(self)@,
            },
    {
        let lbl = label.to_owned();
        let n: usize = self.windows.len();
        let mut i: usize = 0;
        while i < n
            invariant
                n == self.windows.len(),
                i <= n,
                lbl@ == label@,
                self@.len() == n,
                self@ == old(self)@,
                find_window(self@, label@) == find_window_from(self@, label@, i as int),
            decreases n - i,
        {
            let w = &self.windows[i];
            proof {
                assert(self@[i as int] == w@);
            }
            if w.label == lbl {
                let replacement = Window { label: w.label.clone(), fullscreen: value };
                let ghost prior = self@;
                self.windows.set(i, replacement);
                proof {
                    assert(self@ =~= prior.update(
                        i as int,
                        WindowModel { label: label@, fullscreen: value },
                    ));
                }
                return true;
            }
            i += 1;
        }
        false
    }

    /// The startup hook. Runs once, after the windows exist: when the
    /// launch arguments carry the exact token `--fullscreen`, the main
    /// window (label `main`) is put into fullscreen mode; without the
    /// token, or without a main window, nothing changes and nothing fails.
    pub fn run_startup_hook(&mut self, args: &Vec<String>)
        ensures
            ({
                let wanted = has_fullscreen_flag(args.deep_view());
                match find_window(old(self)@, "main"@) {
                    Some(i) => if wanted {
                        final(self)@ == old(self)@.update(
                            i,
                            WindowModel { label: old(self)@[i].label, fullscreen: true },
                        )
                    } else {
                        final(self)@ == old(self)@
                    },
                    None => final(self)@ == old(self)@,
                }
            }),
    {
        if wants_fullscreen(args) {
            self.set_fullscreen("main", true);
        }
    }
}

} // verus!
