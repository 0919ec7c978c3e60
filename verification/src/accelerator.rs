//! Menu accelerators in the messages of Windows.
use vstd::prelude::*;

use crate::manager::AppManager;

verus! {

/// The search for the menu that has the accelerator of a message.
#[derive(PartialEq, Eq, Debug)]
pub struct AcceleratorSearch {
    /// The ids of the menus, in their order.
    pub menus: Vec<String>,
    /// The place of the menu that is tried next.
    pub next: usize,
}

/// How the search goes on.
#[derive(PartialEq, Eq, Debug)]
pub enum AcceleratorStep {
    /// The system is to translate the message by the accelerators of this menu.
    Try(String),
    /// The search is over. It tells whether the message was translated.
    Over(bool),
}

impl AppManager {
    /// Begins to look for the menu that has the accelerator of a message.
    pub fn search_accelerator(&self) -> (search: AcceleratorSearch)
        ensures
            crate::menu_change::texts(search.menus@) == self.menu.stash.order(),
            search.next == 0,
    {
        AcceleratorSearch { menus: self.menu.stash.labels(), next: 0 }
    }
}

impl AcceleratorSearch {
    /// Goes on with what the system said of the last menu that was tried.
    ///
    /// The first menu by which the message was translated ends the search.
    pub fn resume(&mut self, translated: Option<i32>) -> (step: AcceleratorStep)
        ensures
            final(self).menus == old(self).menus,
            match step {
                AcceleratorStep::Try(menu) => {
                    &&& translated != Some(1i32)
                    &&& old(self).next < old(self).menus@.len()
                    &&& menu == old(self).menus@[old(self).next as int]
                    &&& final(self).next == old(self).next + 1
                },
                AcceleratorStep::Over(found) => {
                    &&& found == (translated == Some(1i32))
                    &&& !found ==> old(self).next >= old(self).menus@.len()
                    &&& final(self).next == old(self).next
                },
            },
    {
        if let Some(1) = translated {
            return AcceleratorStep::Over(true);
        }
        if self.next < self.menus.len() {
            let menu = self.menus[self.next].clone();
            self.next += 1;
            AcceleratorStep::Try(menu)
        } else {
            AcceleratorStep::Over(false)
        }
    }
}

} // verus!
