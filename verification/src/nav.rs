//! Which screen is shown, and the two menu pages that are the app's only
//! navigation: the main menu holds the pages looked at while moving and a
//! row to the rest, the More page holds the rest and a row back.

use vstd::prelude::*;

verus! {

/// Which screen is shown. The menu pages switch between them.
#[derive(Clone, Copy, Debug, PartialEq, Eq, Structural)]
pub enum Page {
    /// The main menu: one large button per page. Not a destination in its
    /// own right, so it is left out of the lists it draws.
    Menu,
    /// The second menu page, for the pages not on the main one.
    More,
    /// The interactive map with the position marker and track.
    MapPage,
    /// Searchable list of all recorded GPS points.
    Points,
    /// The current position and beacon distance, plus board health.
    Status,
    /// The BLE link, and the board's own power and sleep settings.
    Bluetooth,
    /// The app's own settings, from the TOML config file.
    Settings,
    /// Viewing and editing the WIO-E5 RADIO.TOML.
    Radio,
    /// CSV recording of every report, its graph, and the export.
    Logging,
}

/// The main menu's rows, in order: the pages worth a tap while walking,
/// then the way to the rest.
pub open spec fn main_pages() -> Seq<Page> {
    seq![Page::MapPage, Page::Status, Page::Bluetooth, Page::More]
}

/// The More page's destinations, in order (the row back follows them).
pub open spec fn more_pages() -> Seq<Page> {
    seq![Page::Points, Page::Logging, Page::Settings, Page::Radio]
}

/// The main menu, in order, each row with its label. [`Page::Menu`] is
/// absent: it is the page doing the listing.
pub fn main_items() -> (r: [(Page, &'static str); 4])
    ensures
        forall|i: int| 0 <= i < 4 ==> #[trigger] r@[i].0 == main_pages()[i],
{
    [(Page::MapPage, "Map"), (Page::Status, "Status"), (Page::Bluetooth, "Bluetooth"), (Page::More, "More")]
}

/// The More page: everything the main menu does not list.
pub fn more_items() -> (r: [(Page, &'static str); 4])
    ensures
        forall|i: int| 0 <= i < 4 ==> #[trigger] r@[i].0 == more_pages()[i],
{
    [(Page::Points, "Points"), (Page::Logging, "Logging"), (Page::Settings, "Settings"), (Page::Radio, "Radio")]
}

/// The row that returns from the More page to the main menu.
pub fn back_item() -> (r: (Page, &'static str))
    ensures
        r.0 == Page::Menu,
        r.1@ == "Back"@,
{
    (Page::Menu, "Back")
}

/// Whether a page is one the More page lists.
pub fn on_more_page(page: Page) -> (r: bool)
    ensures
        r == more_pages().contains(page),
{
    let items = more_items();
    let mut i: usize = 0;
    while i < 4
        invariant
            0 <= i <= 4,
            forall|k: int| 0 <= k < 4 ==> #[trigger] items@[k].0 == more_pages()[k],
            forall|k: int| 0 <= k < i ==> more_pages()[k] != page,
        decreases 4 - i,
    {
        if items[i].0 == page {
            assert(more_pages()[i as int] == page);
            return true;
        }
        i = i + 1;
    }
    assert(!more_pages().contains(page)) by {
        if more_pages().contains(page) {
            let k = choose|k: int| 0 <= k < more_pages().len() && more_pages()[k] == page;
            assert(more_pages()[k] != page);
        }
    }
    false
}

/// Whether a page is one of the menu's own rather than a destination.
pub open spec fn is_menu_spec(page: Page) -> bool {
    page == Page::Menu || page == Page::More
}

/// Whether a page is one of the menu's own, rather than a destination. Both
/// are dismissed by the corner toggle and neither is ever the page the menu
/// was opened from.
pub fn is_menu(page: Page) -> (r: bool)
    ensures
        r == is_menu_spec(page),
{
    match page {
        Page::Menu | Page::More => true,
        _ => false,
    }
}

/// Every page but the main menu is on exactly one of the two menus, and
/// neither lists a page twice: an unlisted page could not be reached at all.
pub proof fn lemma_every_page_listed_once(page: Page)
    requires
        page != Page::Menu,
    ensures
        main_pages().contains(page) != more_pages().contains(page),
        main_pages().no_duplicates(),
        more_pages().no_duplicates(),
        main_pages().len() + more_pages().len() == 8,
        page == Page::More ==> main_pages().contains(page),
{
    assert(main_pages()[0] == Page::MapPage);
    assert(main_pages()[1] == Page::Status);
    assert(main_pages()[2] == Page::Bluetooth);
    assert(main_pages()[3] == Page::More);
    assert(more_pages()[0] == Page::Points);
    assert(more_pages()[1] == Page::Logging);
    assert(more_pages()[2] == Page::Settings);
    assert(more_pages()[3] == Page::Radio);
    match page {
        Page::MapPage | Page::Status | Page::Bluetooth | Page::More => {
            assert(!more_pages().contains(page));
        },
        _ => {
            assert(!main_pages().contains(page));
        },
    }
}

/// The page shown, and the page the menu was opened from.
#[derive(Clone, Copy, Debug)]
pub struct Nav {
    /// Which screen is currently shown.
    pub page: Page,
    /// The page the menu was opened from, so closing it without picking
    /// anything goes back where it was. Never a menu page.
    pub menu_from: Page,
}

impl Nav {
    /// Every menu page is a way through, never a place to return to.
    pub open spec fn wf(self) -> bool {
        !is_menu_spec(self.menu_from)
    }

    /// The app opens on the map.
    pub fn new() -> (r: Nav)
        ensures
            r.wf(),
            r.page == Page::MapPage,
            r.menu_from == Page::MapPage,
    {
        Nav { page: Page::MapPage, menu_from: Page::MapPage }
    }

    /// The corner toggle: from either menu page it leaves the menu
    /// altogether, back to where it was opened; from anywhere else it opens
    /// the main menu and remembers the page it came from.
    pub fn toggle(&mut self)
        ensures
            old(self).wf() ==> final(self).wf(),
            !is_menu_spec(old(self).page) ==> final(self).wf(),
            is_menu_spec(old(self).page) ==> *final(self) == (Nav {
                page: old(self).menu_from,
                menu_from: old(self).menu_from,
            }),
            !is_menu_spec(old(self).page) ==> *final(self) == (Nav {
                page: Page::Menu,
                menu_from: old(self).page,
            }),
    {
        if is_menu(self.page) {
            self.page = self.menu_from;
        } else {
            self.menu_from = self.page;
            self.page = Page::Menu;
        }
    }

    /// A row on a menu page was pressed: go where it leads.
    pub fn go(&mut self, target: Page)
        ensures
            final(self).page == target,
            final(self).menu_from == old(self).menu_from,
    {
        self.page = target;
    }

    /// Whether a row is marked as the page behind the menu. The More row is
    /// marked for any of the pages it holds, so the menu says where you are
    /// even when the page itself is one level down.
    pub fn menu_marks(&self, target: Page) -> (r: bool)
        ensures
            r == if target == Page::More {
                more_pages().contains(self.menu_from)
            } else {
                self.menu_from == target
            },
    {
        if target == Page::More {
            on_more_page(self.menu_from)
        } else {
            self.menu_from == target
        }
    }
}

/// Opening the menu from a destination and closing it again returns to
/// that destination, with nothing else changed.
pub proof fn lemma_toggle_round_trip(start: Nav, opened: Nav, closed: Nav)
    requires
        start.wf(),
        !is_menu_spec(start.page),
        opened == (Nav { page: Page::Menu, menu_from: start.page }),
        closed == (Nav { page: opened.menu_from, menu_from: opened.menu_from }),
    ensures
        closed.page == start.page,
        opened.wf(),
        closed.wf(),
{
}

/// Whether the compass sensor should be powered: while heading-up turns the
/// map, or while the map is shown and its marker arrow is set to follow the
/// phone. Nothing is measured for an arrow behind another page.
pub fn compass_wanted(heading_up: bool, marker_arrow: bool, page: Page) -> (r: bool)
    ensures
        r == (heading_up || (marker_arrow && page == Page::MapPage)),
{
    heading_up || (marker_arrow && page == Page::MapPage)
}

} // verus!
