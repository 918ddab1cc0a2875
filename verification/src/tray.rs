//! The tray: its title, its menu, and what its items do.

use vstd::hash_map::StringHashMap;
use vstd::prelude::*;

use crate::closing;
use crate::text;
use crate::types::AccountsStore;
use crate::types::StoreView;
use crate::types::StoredAccount;
use crate::types::TrayDisplayMode;
use crate::words;

verus! {

pub const ACCOUNT_ITEM_PREFIX: &'static str = "account:";

pub const OPEN_ITEM_ID: &'static str = "open";

pub const QUIT_ITEM_ID: &'static str = "quit";

// ---------------------------------------------------------------------------
// Known usage
// ---------------------------------------------------------------------------

/// What the tray knows of the usage of an account: what is left of each window, as
/// it is shown
#[derive(Debug)]
pub struct TrayUsage {
    pub session_left: Option<String>,
    pub week_left: Option<String>,
    pub has_error: bool,
}

/// What is known of the usage of an account.
pub struct TrayUsageView {
    pub session_left: Option<Seq<char>>,
    pub week_left: Option<Seq<char>>,
    pub has_error: bool,
}

impl View for TrayUsage {
    type V = TrayUsageView;

    open spec fn view(&self) -> TrayUsageView {
        TrayUsageView {
            session_left: text::opt_text(self.session_left),
            week_left: text::opt_text(self.week_left),
            has_error: self.has_error,
        }
    }
}

/// The usage of accounts by their identifier
pub struct UsageCache {
    entries: StringHashMap<TrayUsage>,
}

impl View for UsageCache {
    type V = Map<Seq<char>, TrayUsageView>;

    closed spec fn view(&self) -> Map<Seq<char>, TrayUsageView> {
        self.entries@.map_values(|usage: TrayUsage| usage@)
    }
}

pub open spec fn nothing_known() -> Map<Seq<char>, TrayUsageView> {
    Map::empty()
}

/// What is known after the reports came in, in their order.
pub open spec fn informed(
    known: Map<Seq<char>, TrayUsageView>,
    reports: Seq<(String, TrayUsage)>,
) -> Map<Seq<char>, TrayUsageView>
    decreases reports.len(),
{
    if reports.len() == 0 {
        known
    } else {
        informed(known, reports.drop_last()).insert(reports.last().0@, reports.last().1@)
    }
}

/// What is known of the usage of an account.
pub open spec fn known_usage(known: Map<Seq<char>, TrayUsageView>, id: Seq<char>) -> Option<
    TrayUsageView,
> {
    if known.contains_key(id) {
        Some(known[id])
    } else {
        None
    }
}

impl UsageCache {
    /// A tray that knows nothing yet.
    pub fn new() -> (r: Self)
        ensures
            r@ == nothing_known(),
    {
        let r = UsageCache { entries: StringHashMap::new() };
        assert(r@ =~= nothing_known());
        r
    }

    /// Takes reports on usage in. What was known of their accounts is forgotten.
    pub fn ingest_usage(&mut self, usages: Vec<(String, TrayUsage)>)
        ensures
            final(self)@ == informed(old(self)@, usages@),
    {
        let ghost known = self@;
        let mut i: usize = 0;
        assert(usages@.take(0) =~= Seq::<(String, TrayUsage)>::empty());
        while i < usages.len()
            invariant
                i <= usages@.len(),
                self@ == informed(known, usages@.take(i as int)),
            decreases usages@.len() - i,
        {
            assert(usages@.take(i + 1).drop_last() =~= usages@.take(i as int));
            let ghost before = self@;
            let usage = TrayUsage {
                session_left: text::copy_opt(&usages[i].1.session_left),
                week_left: text::copy_opt(&usages[i].1.week_left),
                has_error: usages[i].1.has_error,
            };
            self.entries.insert(usages[i].0.clone(), usage);
            assert(self@ =~= before.insert(usages@[i as int].0@, usage@));
            i = i + 1;
        }
        assert(usages@.take(usages@.len() as int) =~= usages@);
    }

    /// What is known of the usage of an account.
    pub fn get(&self, account_id: &str) -> (r: Option<&TrayUsage>)
        ensures
            match r {
                Some(usage) => known_usage(self@, account_id@) == Some(usage@),
                None => known_usage(self@, account_id@) is None,
            },
    {
        self.entries.get(account_id)
    }
}

// ---------------------------------------------------------------------------
// Titles
// ---------------------------------------------------------------------------

/// What is left of the session, unless the usage came with an error.
pub open spec fn session_title(usage: TrayUsageView) -> Option<Seq<char>> {
    if usage.has_error {
        None
    } else {
        usage.session_left
    }
}

/// What is left of the session of the active account, where it is known.
pub open spec fn session_of(
    known: Map<Seq<char>, TrayUsageView>,
    active: Option<Seq<char>>,
) -> Option<Seq<char>> {
    match active {
        Some(id) => match known_usage(known, id) {
            Some(usage) => session_title(usage),
            None => None,
        },
        None => None,
    }
}

/// A label, or two dashes where there is none.
pub open spec fn or_dashes(label: Option<Seq<char>>) -> Seq<char> {
    match label {
        Some(label) => label,
        None => "--"@,
    }
}

/// What is left of the session and of the week.
pub open spec fn both_left(session: Option<Seq<char>>, week: Option<Seq<char>>) -> Seq<char> {
    "H:"@ + or_dashes(session) + " W:"@ + or_dashes(week)
}

/// What is left of the windows of the active account.
pub open spec fn usage_title(
    known: Map<Seq<char>, TrayUsageView>,
    active: Option<Seq<char>>,
) -> Seq<char> {
    match active {
        None => "Codex"@,
        Some(id) => match known_usage(known, id) {
            Some(usage) if !usage.has_error => both_left(usage.session_left, usage.week_left),
            _ => both_left(None, None),
        },
    }
}

/// The title of the tray.
pub open spec fn title(
    known: Map<Seq<char>, TrayUsageView>,
    active: Option<Seq<char>>,
    mode: TrayDisplayMode,
) -> Option<Seq<char>> {
    match mode {
        TrayDisplayMode::IconAndSession => session_of(known, active),
        TrayDisplayMode::ActiveUsageText => Some(usage_title(known, active)),
        TrayDisplayMode::Hidden => None,
    }
}

/// What is left of a session, unless the usage came with an error.
pub fn session_remaining_title(usage: &TrayUsage) -> (r: Option<String>)
    ensures
        text::opt_text(r) == session_title(usage@),
{
    if usage.has_error {
        None
    } else {
        text::copy_opt(&usage.session_left)
    }
}

/// What is left of the session of the active account. It stands beside the icon.
pub fn active_session_title(cache: &UsageCache, active_account_id: Option<&str>) -> (r: Option<
    String,
>)
    ensures
        text::opt_text(r) == session_of(cache@, text::opt_str(active_account_id)),
{
    match active_account_id {
        Some(id) => match cache.get(id) {
            Some(usage) => session_remaining_title(usage),
            None => None,
        },
        None => None,
    }
}

fn label_or_dashes(label: Option<&str>) -> (r: &str)
    ensures
        r@ == or_dashes(text::opt_str(label)),
{
    match label {
        Some(label) => label,
        None => "--",
    }
}

/// What is left of the windows of the active account.
pub fn active_usage_title(cache: &UsageCache, active_account_id: Option<&str>) -> (r: String)
    ensures
        r@ == usage_title(cache@, text::opt_str(active_account_id)),
{
    let id = match active_account_id {
        Some(id) => id,
        None => {
            return "Codex".to_string();
        },
    };
    let (session, week): (Option<&str>, Option<&str>) = match cache.get(id) {
        Some(usage) => {
            if usage.has_error {
                (None, None)
            } else {
                (text::as_opt_str(&usage.session_left), text::as_opt_str(&usage.week_left))
            }
        },
        None => (None, None),
    };
    let mut r = text::joined("H:", label_or_dashes(session));
    r.append(" W:");
    r.append(label_or_dashes(week));
    r
}

/// The title of the tray.
pub fn active_tray_title(
    cache: &UsageCache,
    active_account_id: Option<&str>,
    mode: TrayDisplayMode,
) -> (r: Option<String>)
    ensures
        text::opt_text(r) == title(cache@, text::opt_str(active_account_id), mode),
{
    match mode {
        TrayDisplayMode::IconAndSession => active_session_title(cache, active_account_id),
        TrayDisplayMode::ActiveUsageText => Some(active_usage_title(cache, active_account_id)),
        TrayDisplayMode::Hidden => None,
    }
}

// ---------------------------------------------------------------------------
// The menu
// ---------------------------------------------------------------------------

/// What is left of the windows of an account, as it follows the name.
pub open spec fn suffix_of(usage: Option<TrayUsageView>) -> Seq<char> {
    match usage {
        Some(usage) if !usage.has_error => match (usage.session_left, usage.week_left) {
            (Some(session), Some(week)) => "  \u{2014}  "@ + "S:"@ + session + " "@ + "W:"@ + week,
            (Some(session), None) => "  \u{2014}  "@ + "S:"@ + session,
            (None, Some(week)) => "  \u{2014}  "@ + "W:"@ + week,
            (None, None) => Seq::empty(),
        },
        _ => Seq::empty(),
    }
}

/// What is left of the windows of an account, as it follows the name; nothing where
/// it is not known.
pub fn usage_suffix(cache: &UsageCache, account_id: &str) -> (r: String)
    ensures
        r@ == suffix_of(known_usage(cache@, account_id@)),
{
    let mut r = String::new();
    assert(r@ =~= Seq::<char>::empty());
    match cache.get(account_id) {
        Some(usage) => {
            if usage.has_error {
                return r;
            }
            match (&usage.session_left, &usage.week_left) {
                (Some(session), Some(week)) => {
                    r = text::joined("  \u{2014}  ", "S:");
                    r.append(session.as_str());
                    r.append(" ");
                    r.append("W:");
                    r.append(week.as_str());
                },
                (Some(session), None) => {
                    r = text::joined("  \u{2014}  ", "S:");
                    r.append(session.as_str());
                },
                (None, Some(week)) => {
                    r = text::joined("  \u{2014}  ", "W:");
                    r.append(week.as_str());
                },
                (None, None) => {},
            }
        },
        None => {},
    }
    r
}

/// The identifier of the menu item for an account.
pub fn account_menu_id(account_id: &str) -> (r: String)
    ensures
        r@ == ACCOUNT_ITEM_PREFIX@ + account_id@,
{
    text::joined(ACCOUNT_ITEM_PREFIX, account_id)
}

/// A label in which no character is taken for a mnemonic.
pub open spec fn escaped(label: Seq<char>) -> Seq<char> {
    words::replace_char_of(label, '&', "&&"@)
}

/// A label in which no character is taken for a mnemonic.
pub fn menu_label(label: &str) -> (r: String)
    ensures
        r@ == escaped(label@),
{
    words::replace_char(label, '&', "&&")
}

/// An entry of the menu
#[derive(Debug)]
pub enum MenuEntry {
    /// An item that can be chosen, or not
    Item {
        id: String,
        label: String,
        enabled: bool,
    },
    /// An item with a check mark, or without
    CheckItem {
        id: String,
        label: String,
        checked: bool,
    },
    Separator,
}

/// What an entry of the menu is.
pub enum MenuView {
    Item {
        id: Seq<char>,
        label: Seq<char>,
        enabled: bool,
    },
    CheckItem {
        id: Seq<char>,
        label: Seq<char>,
        checked: bool,
    },
    Separator,
}

impl View for MenuEntry {
    type V = MenuView;

    open spec fn view(&self) -> MenuView {
        match self {
            MenuEntry::Item { id, label, enabled } => MenuView::Item {
                id: id@,
                label: label@,
                enabled: *enabled,
            },
            MenuEntry::CheckItem { id, label, checked } => MenuView::CheckItem {
                id: id@,
                label: label@,
                checked: *checked,
            },
            MenuEntry::Separator => MenuView::Separator,
        }
    }
}

/// What the entries of a menu are.
pub open spec fn entries_of(menu: Seq<MenuEntry>) -> Seq<MenuView> {
    menu.map_values(|entry: MenuEntry| entry@)
}

/// The entry for an account. The active one has the check mark.
pub open spec fn account_entry(
    account: StoredAccount,
    active: Option<Seq<char>>,
    known: Map<Seq<char>, TrayUsageView>,
) -> MenuView {
    MenuView::CheckItem {
        id: ACCOUNT_ITEM_PREFIX@ + account.id@,
        label: escaped(account.name@ + suffix_of(known_usage(known, account.id@))),
        checked: active == Some(account.id@),
    }
}

/// The entries that come last.
pub open spec fn closing_entries() -> Seq<MenuView> {
    seq![
        MenuView::Separator,
        MenuView::Item { id: OPEN_ITEM_ID@, label: "Open Codex Switcher"@, enabled: true },
        MenuView::Item { id: QUIT_ITEM_ID@, label: "Quit"@, enabled: true },
    ]
}

/// The menu for a store.
pub open spec fn menu_of(store: StoreView, known: Map<Seq<char>, TrayUsageView>) -> Seq<MenuView> {
    (if store.accounts.len() == 0 {
        seq![MenuView::Item { id: "empty"@, label: "No accounts configured"@, enabled: false }]
    } else {
        store.accounts.map_values(
            |account: StoredAccount| account_entry(account, store.active, known),
        )
    }) + closing_entries()
}

fn item(id: &str, label: &str, enabled: bool) -> (r: MenuEntry)
    ensures
        r@ == (MenuView::Item { id: id@, label: label@, enabled }),
{
    MenuEntry::Item { id: id.to_string(), label: label.to_string(), enabled }
}

proof fn lemma_push_entry(menu: Seq<MenuEntry>, entry: MenuEntry)
    ensures
        entries_of(menu.push(entry)) == entries_of(menu).push(entry@),
{
    assert(entries_of(menu.push(entry)) =~= entries_of(menu).push(entry@));
}

/// The menu for a store.
pub fn build_menu(store: &AccountsStore, cache: &UsageCache) -> (r: Vec<MenuEntry>)
    ensures
        entries_of(r@) == menu_of(store@, cache@),
{
    let mut menu: Vec<MenuEntry> = Vec::new();
    let ghost top = if store@.accounts.len() == 0 {
        seq![MenuView::Item { id: "empty"@, label: "No accounts configured"@, enabled: false }]
    } else {
        store@.accounts.map_values(
            |account: StoredAccount| account_entry(account, store@.active, cache@),
        )
    };
    assert(entries_of(menu@) =~= Seq::<MenuView>::empty());
    if store.accounts.len() == 0 {
        let entry = item("empty", "No accounts configured", false);
        proof {
            lemma_push_entry(menu@, entry);
        }
        menu.push(entry);
        assert(entries_of(menu@) =~= top);
    } else {
        let mut i: usize = 0;
        assert(entries_of(menu@) =~= top.take(0));
        while i < store.accounts.len()
            invariant
                top == store@.accounts.map_values(
                    |account: StoredAccount| account_entry(account, store@.active, cache@),
                ),
                i <= store.accounts@.len(),
                entries_of(menu@) == top.take(i as int),
            decreases store.accounts@.len() - i,
        {
            let account = &store.accounts[i];
            let suffix = usage_suffix(cache, account.id.as_str());
            let label = text::joined(account.name.as_str(), suffix.as_str());
            let entry = MenuEntry::CheckItem {
                id: account_menu_id(account.id.as_str()),
                label: menu_label(label.as_str()),
                checked: text::same_opt(
                    text::as_opt_str(&store.active_account_id),
                    Some(account.id.as_str()),
                ),
            };
            proof {
                assert(entry@ == top[i as int]);
                lemma_push_entry(menu@, entry);
                assert(top.take(i + 1) =~= top.take(i as int).push(top[i as int]));
            }
            menu.push(entry);
            i = i + 1;
        }
        assert(top.take(top.len() as int) =~= top);
    }
    let open = item(OPEN_ITEM_ID, "Open Codex Switcher", true);
    let quit = item(QUIT_ITEM_ID, "Quit", true);
    proof {
        lemma_push_entry(menu@, MenuEntry::Separator);
        lemma_push_entry(menu@.push(MenuEntry::Separator), open);
        lemma_push_entry(menu@.push(MenuEntry::Separator).push(open), quit);
    }
    menu.push(MenuEntry::Separator);
    menu.push(open);
    menu.push(quit);
    assert(entries_of(menu@) =~= top + closing_entries());
    menu
}

// ---------------------------------------------------------------------------
// What items do
// ---------------------------------------------------------------------------

/// What choosing a menu item does
#[derive(Debug)]
pub enum MenuAction {
    /// Shows the main window.
    OpenMainWindow,
    /// Ends the application.
    Quit,
    /// Builds the menu anew, for the check mark of the active account.
    RefreshMenu,
    /// Switches to the account with this identifier.
    SwitchTo(String),
    /// Nothing
    Nothing,
}

/// Choosing a menu item does the action.
pub open spec fn is_action(action: MenuAction, item_id: Seq<char>, active: Option<Seq<char>>) -> bool {
    if item_id == OPEN_ITEM_ID@ {
        action == MenuAction::OpenMainWindow
    } else if item_id == QUIT_ITEM_ID@ {
        action == MenuAction::Quit
    } else if !text::starts_with_of(item_id, ACCOUNT_ITEM_PREFIX@) {
        action == MenuAction::Nothing
    } else {
        let id = item_id.skip(ACCOUNT_ITEM_PREFIX@.len() as int);
        if active == Some(id) {
            action == MenuAction::RefreshMenu
        } else {
            action matches MenuAction::SwitchTo(chosen) && chosen@ == id
        }
    }
}

/// What choosing a menu item does.
pub fn handle_menu_event(item_id: &str, active_account_id: Option<&str>) -> (r: MenuAction)
    ensures
        is_action(r, item_id@, text::opt_str(active_account_id)),
{
    if text::same(item_id, OPEN_ITEM_ID) {
        return MenuAction::OpenMainWindow;
    }
    if text::same(item_id, QUIT_ITEM_ID) {
        return MenuAction::Quit;
    }
    match text::strip_prefix_text(item_id, ACCOUNT_ITEM_PREFIX) {
        Some(id) => {
            if text::same_opt(active_account_id, Some(id.as_str())) {
                MenuAction::RefreshMenu
            } else {
                MenuAction::SwitchTo(id)
            }
        },
        None => MenuAction::Nothing,
    }
}

/// Each account is told by its menu item: no item of an account is that of another
/// account, that of the window or that of the end, and its identifier can be read
/// from it.
pub proof fn law_menu_items_are_told_apart(a: Seq<char>, b: Seq<char>)
    ensures
        text::starts_with_of(ACCOUNT_ITEM_PREFIX@ + a, ACCOUNT_ITEM_PREFIX@),
        (ACCOUNT_ITEM_PREFIX@ + a).skip(ACCOUNT_ITEM_PREFIX@.len() as int) == a,
        ACCOUNT_ITEM_PREFIX@ + a == ACCOUNT_ITEM_PREFIX@ + b ==> a == b,
        ACCOUNT_ITEM_PREFIX@ + a != OPEN_ITEM_ID@,
        ACCOUNT_ITEM_PREFIX@ + a != QUIT_ITEM_ID@,
        ACCOUNT_ITEM_PREFIX@ + a != "empty"@,
{
    let n = ACCOUNT_ITEM_PREFIX@.len() as int;
    reveal_strlit("account:");
    reveal_strlit("open");
    reveal_strlit("quit");
    reveal_strlit("empty");
    let x = ACCOUNT_ITEM_PREFIX@ + a;
    let y = ACCOUNT_ITEM_PREFIX@ + b;
    assert(x.take(n) =~= ACCOUNT_ITEM_PREFIX@);
    assert(x.skip(n) =~= a);
    assert(y.skip(n) =~= b);
    assert(x[0] == 'a');
    assert("open"@[0] == 'o');
    assert("quit"@[0] == 'q');
    assert("empty"@[0] == 'e');
}

/// What follows a switch from the menu
#[derive(Debug)]
pub enum SwitchFollowUp {
    /// The menu is built anew, and the windows are told that accounts have changed.
    Announce,
    /// The menu is built anew.
    RefreshMenu,
    /// The menu is built anew, and the main window is shown with the reason why
    /// the switch has to wait.
    ShowBlocked {
        account_id: String,
        error: String,
    },
}

/// A switch from the menu is followed up so.
pub open spec fn is_follow_up(
    follow_up: SwitchFollowUp,
    account_id: Seq<char>,
    error: Option<String>,
) -> bool {
    match error {
        None => follow_up == SwitchFollowUp::Announce,
        Some(error) => if text::starts_with_of(
            error@,
            closing::CODEX_RUNNING_SWITCH_BLOCKED_PREFIX@,
        ) {
            follow_up matches SwitchFollowUp::ShowBlocked { account_id: id, error: shown } && id@
                == account_id && shown == error
        } else {
            follow_up == SwitchFollowUp::RefreshMenu
        },
    }
}

/// What follows a switch from the menu, given the error it came to, if any.
pub fn after_switch(account_id: &str, error: Option<String>) -> (r: SwitchFollowUp)
    ensures
        is_follow_up(r, account_id@, error),
{
    match error {
        None => SwitchFollowUp::Announce,
        Some(error) => {
            if closing::is_codex_running_switch_block(error.as_str()) {
                SwitchFollowUp::ShowBlocked { account_id: account_id.to_string(), error }
            } else {
                SwitchFollowUp::RefreshMenu
            }
        },
    }
}

// ---------------------------------------------------------------------------
// The display
// ---------------------------------------------------------------------------

/// The kind of system that the tray is shown on
#[derive(Debug, Clone, Copy, PartialEq, Eq, Structural)]
pub enum TrayPlatform {
    MacOs,
    Windows,
    Linux,
}

/// A change to how the tray is shown
#[derive(Debug, Clone, Copy, PartialEq, Eq, Structural)]
pub enum TrayChange {
    Show,
    Hide,
    SetIcon,
    RemoveIcon,
    /// The icon takes the colour of the menu bar.
    UseIconAsTemplate,
    SetTitle,
    ClearTitle,
}

/// The changes that bring the tray into a mode, in their order.
pub open spec fn changes(mode: TrayDisplayMode, platform: TrayPlatform) -> Seq<TrayChange> {
    match mode {
        TrayDisplayMode::IconAndSession => match platform {
            TrayPlatform::MacOs => seq![
                TrayChange::Show,
                TrayChange::SetIcon,
                TrayChange::UseIconAsTemplate,
                TrayChange::SetTitle,
            ],
            TrayPlatform::Windows => seq![
                TrayChange::Show,
                TrayChange::SetIcon,
                TrayChange::SetTitle,
            ],
            TrayPlatform::Linux => seq![TrayChange::Show, TrayChange::SetTitle],
        },
        TrayDisplayMode::ActiveUsageText => match platform {
            TrayPlatform::MacOs => seq![
                TrayChange::Show,
                TrayChange::RemoveIcon,
                TrayChange::SetTitle,
            ],
            TrayPlatform::Windows => seq![
                TrayChange::Show,
                TrayChange::SetIcon,
                TrayChange::SetTitle,
            ],
            TrayPlatform::Linux => seq![TrayChange::Show, TrayChange::SetTitle],
        },
        TrayDisplayMode::Hidden => seq![TrayChange::ClearTitle, TrayChange::Hide],
    }
}

/// The changes that bring the tray into a mode, in their order.
pub fn refresh_tray_display(mode: TrayDisplayMode, platform: TrayPlatform) -> (r: Vec<TrayChange>)
    ensures
        r@ == changes(mode, platform),
{
    let mut r: Vec<TrayChange> = Vec::new();
    match mode {
        TrayDisplayMode::IconAndSession => {
            r.push(TrayChange::Show);
            if platform != TrayPlatform::Linux {
                r.push(TrayChange::SetIcon);
                if platform == TrayPlatform::MacOs {
                    r.push(TrayChange::UseIconAsTemplate);
                }
            }
            r.push(TrayChange::SetTitle);
        },
        TrayDisplayMode::ActiveUsageText => {
            r.push(TrayChange::Show);
            if platform == TrayPlatform::MacOs {
                r.push(TrayChange::RemoveIcon);
            }
            if platform == TrayPlatform::Windows {
                r.push(TrayChange::SetIcon);
            }
            r.push(TrayChange::SetTitle);
        },
        TrayDisplayMode::Hidden => {
            r.push(TrayChange::ClearTitle);
            r.push(TrayChange::Hide);
        },
    }
    assert(r@ =~= changes(mode, platform));
    r
}

/// The last word of the changes is the mode's: the tray ends up hidden in the hidden
/// mode and shown in every other one, whatever the system.
pub proof fn law_display_follows_the_mode(mode: TrayDisplayMode, platform: TrayPlatform)
    ensures
        changes(mode, platform).contains(TrayChange::Hide) <==> mode == TrayDisplayMode::Hidden,
        changes(mode, platform).contains(TrayChange::Show) <==> mode != TrayDisplayMode::Hidden,
        changes(mode, platform).contains(TrayChange::SetTitle) <==> mode
            != TrayDisplayMode::Hidden,
{
    let all = changes(mode, platform);
    if mode == TrayDisplayMode::Hidden {
        assert(all[1] == TrayChange::Hide);
    } else {
        assert(all[0] == TrayChange::Show);
        assert(all[all.len() - 1] == TrayChange::SetTitle);
    }
}

// ---------------------------------------------------------------------------
// Laws
// ---------------------------------------------------------------------------

/// The menu starts with one entry for each account, in their order, under the identifier
/// of the account. The entry of the active account has the check mark, and no other.
pub proof fn law_menu_checks_the_active_account(
    store: StoreView,
    known: Map<Seq<char>, TrayUsageView>,
    i: int,
)
    requires
        0 <= i < store.accounts.len(),
    ensures
        menu_of(store, known).len() == store.accounts.len() + 3,
        menu_of(store, known)[i] matches MenuView::CheckItem { id, checked, .. } && id
            == "account:"@ + store.accounts[i].id@ && (checked <==> store.active == Some(
            store.accounts[i].id@,
        )),
{
}

/// Where the accounts have identifiers of their own, exactly one entry is checked if
/// there is an active account, which is its own, and none is checked otherwise.
pub proof fn law_one_entry_is_checked(
    store: StoreView,
    known: Map<Seq<char>, TrayUsageView>,
    active: int,
)
    requires
        forall|i: int, j: int|
            0 <= i < j < store.accounts.len() ==> (#[trigger] store.accounts[i]).id@ != (
            #[trigger] store.accounts[j]).id@,
    ensures
        0 <= active < store.accounts.len() && store.active == Some(store.accounts[active].id@)
            ==> forall|i: int|
            0 <= i < menu_of(store, known).len() ==> ((#[trigger] menu_of(store, known)[i])
                matches MenuView::CheckItem { checked, .. } && checked <==> i == active),
        (forall|k: int|
            0 <= k < store.accounts.len() ==> store.active != Some(
                (#[trigger] store.accounts[k]).id@,
            )) ==> forall|i: int|
            0 <= i < menu_of(store, known).len() ==> !((#[trigger] menu_of(store, known)[i])
                matches MenuView::CheckItem { checked, .. } && checked),
{
    let menu = menu_of(store, known);
    let n = store.accounts.len() as int;
    assert forall|i: int| 0 <= i < n implies (#[trigger] menu[i]) matches MenuView::CheckItem {
        checked,
        ..
    } && (checked <==> store.active == Some(store.accounts[i].id@)) by {
        law_menu_checks_the_active_account(store, known, i);
    }
    let first = if n == 0 {
        1
    } else {
        n
    };
    assert forall|i: int| first <= i < menu.len() implies !(#[trigger] menu[i] is CheckItem) by {
        assert(menu[i] == closing_entries()[i - first]);
    }
    if 0 <= active < n && store.active == Some(store.accounts[active].id@) {
        assert forall|i: int| 0 <= i < menu.len() implies ((#[trigger] menu[i])
            matches MenuView::CheckItem { checked, .. } && checked <==> i == active) by {
            if i < n && i != active {
                if i < active {
                    assert(store.accounts[i].id@ != store.accounts[active].id@);
                } else {
                    assert(store.accounts[active].id@ != store.accounts[i].id@);
                }
            }
        }
    }
}

/// A menu without accounts says so, in an item that cannot be chosen. Every menu ends
/// with the items that open the window and that end the application.
pub proof fn law_menu_opens_and_quits(store: StoreView, known: Map<Seq<char>, TrayUsageView>)
    ensures
        ({
            let menu = menu_of(store, known);
            let n = menu.len();
            &&& n >= 4
            &&& store.accounts.len() == 0 ==> n == 4
            &&& store.accounts.len() == 0 ==> (menu[0] matches MenuView::Item { id, label, enabled }
                && id == "empty"@ && label == "No accounts configured"@ && !enabled)
            &&& menu[n - 3] is Separator
            &&& menu[n - 2] matches MenuView::Item { id, label, enabled } && enabled && label
                == "Open Codex Switcher"@ && (forall|
                action: MenuAction,
            |
                #[trigger] is_action(action, id, store.active) ==> action
                    == MenuAction::OpenMainWindow)
            &&& menu[n - 1] matches MenuView::Item { id, label, enabled } && enabled && label
                == "Quit"@ && (forall|
                action: MenuAction,
            |
                #[trigger] is_action(action, id, store.active) ==> action == MenuAction::Quit)
        }),
{
    reveal_strlit("open");
    reveal_strlit("quit");
    assert("open"@[0] != "quit"@[0]);
    let menu = menu_of(store, known);
    let n = menu.len();
    assert(menu[n - 3] == closing_entries()[0]);
    assert(menu[n - 2] == closing_entries()[1]);
    assert(menu[n - 1] == closing_entries()[2]);
}

/// Choosing the entry of an account switches to that account, unless it is the active one
/// already.
pub proof fn law_choosing_an_account_switches_to_it(
    store: StoreView,
    known: Map<Seq<char>, TrayUsageView>,
    i: int,
    action: MenuAction,
)
    requires
        0 <= i < store.accounts.len(),
        menu_of(store, known)[i] matches MenuView::CheckItem { id, .. } && is_action(
            action,
            id,
            store.active,
        ),
    ensures
        store.active == Some(store.accounts[i].id@) ==> action == MenuAction::RefreshMenu,
        store.active != Some(store.accounts[i].id@) ==> (action matches MenuAction::SwitchTo(chosen)
            && chosen@ == store.accounts[i].id@),
{
    let a = store.accounts[i].id@;
    law_menu_items_are_told_apart(a, a);
}

/// What follows `&` signs and other characters in a label stays apart: each sign becomes
/// two, every other character stays, and all stay in their places.
pub proof fn law_labels_double_signs(a: Seq<char>, b: Seq<char>)
    ensures
        escaped(a + b) == escaped(a) + escaped(b),
        a.len() == 1 ==> escaped(a) == (if a[0] == '&' {
            a + a
        } else {
            a
        }),
    decreases b.len(),
{
    reveal_strlit("&&");
    if a.len() == 1 {
        assert(a.drop_last() =~= Seq::<char>::empty());
        assert(escaped(a.drop_last()) == Seq::<char>::empty());
        if a[0] == '&' {
            assert(escaped(a) =~= a + a);
        } else {
            assert(escaped(a) =~= a);
        }
    }
    if b.len() == 0 {
        assert(a + b =~= a);
        assert(escaped(a) + escaped(b) =~= escaped(a));
    } else {
        assert((a + b).drop_last() =~= a + b.drop_last());
        law_labels_double_signs(a, b.drop_last());
        assert(escaped(a + b) =~= escaped(a) + escaped(b));
    }
}

/// The label of an account starts with its name; behind it stands what is left of its
/// windows, where that is known, and nothing else.
pub proof fn law_labels_show_names(
    store: StoreView,
    known: Map<Seq<char>, TrayUsageView>,
    i: int,
)
    requires
        0 <= i < store.accounts.len(),
    ensures
        ({
            let account = store.accounts[i];
            let usage = known[account.id@];
            let shown = known.contains_key(account.id@) && !usage.has_error;
            menu_of(store, known)[i] matches MenuView::CheckItem { label, .. } && {
                &&& text::starts_with_of(label, escaped(account.name@))
                &&& !shown || usage.session_left is None && usage.week_left is None ==> label
                    == escaped(account.name@)
                &&& shown && usage.session_left is Some && usage.week_left is Some ==> label
                    == escaped(
                    account.name@ + "  \u{2014}  "@ + "S:"@ + usage.session_left->0 + " "@ + "W:"@
                        + usage.week_left->0,
                )
                &&& shown && usage.session_left is Some && usage.week_left is None ==> label
                    == escaped(account.name@ + "  \u{2014}  "@ + "S:"@ + usage.session_left->0)
                &&& shown && usage.session_left is None && usage.week_left is Some ==> label
                    == escaped(account.name@ + "  \u{2014}  "@ + "W:"@ + usage.week_left->0)
            }
        }),
{
    let account = store.accounts[i];
    let suffix = suffix_of(known_usage(known, account.id@));
    let name = account.name@;
    let usage = known[account.id@];
    law_labels_double_signs(name, suffix);
    let label = escaped(name + suffix);
    assert(label.subrange(0, escaped(name).len() as int) =~= escaped(name));
    assert(name + Seq::<char>::empty() =~= name);
    let dash = "  \u{2014}  "@;
    if usage.session_left is Some {
        assert(name + (dash + "S:"@ + usage.session_left->0) =~= name + dash + "S:"@
            + usage.session_left->0);
        if usage.week_left is Some {
            assert(name + (dash + "S:"@ + usage.session_left->0 + " "@ + "W:"@
                + usage.week_left->0) =~= name + dash + "S:"@ + usage.session_left->0 + " "@
                + "W:"@ + usage.week_left->0);
        }
    } else if usage.week_left is Some {
        assert(name + (dash + "W:"@ + usage.week_left->0) =~= name + dash + "W:"@
            + usage.week_left->0);
    }
}

/// What is known of an account is its latest report.
pub proof fn law_latest_report_counts(
    known: Map<Seq<char>, TrayUsageView>,
    reports: Seq<(String, TrayUsage)>,
    i: int,
)
    requires
        0 <= i < reports.len(),
        forall|j: int| i < j < reports.len() ==> (#[trigger] reports[j]).0@ != reports[i].0@,
    ensures
        informed(known, reports).contains_key(reports[i].0@),
        informed(known, reports)[reports[i].0@] == reports[i].1@,
    decreases reports.len(),
{
    let front = reports.drop_last();
    if i < front.len() {
        assert(reports[reports.len() - 1].0@ != reports[i].0@);
        assert forall|j: int| i < j < front.len() implies (#[trigger] front[j]).0@
            != front[i].0@ by {
            assert(front[j] == reports[j]);
        }
        law_latest_report_counts(known, front, i);
    }
}

/// Reports change nothing of what is known of other accounts.
pub proof fn law_reports_leave_others_alone(
    known: Map<Seq<char>, TrayUsageView>,
    reports: Seq<(String, TrayUsage)>,
    id: Seq<char>,
)
    requires
        forall|j: int| 0 <= j < reports.len() ==> (#[trigger] reports[j]).0@ != id,
    ensures
        informed(known, reports).contains_key(id) <==> known.contains_key(id),
        known.contains_key(id) ==> informed(known, reports)[id] == known[id],
    decreases reports.len(),
{
    if reports.len() > 0 {
        let front = reports.drop_last();
        assert(reports[reports.len() - 1].0@ != id);
        assert forall|j: int| 0 <= j < front.len() implies (#[trigger] front[j]).0@ != id by {
            assert(front[j] == reports[j]);
        }
        law_reports_leave_others_alone(known, front, id);
    }
}

/// The title shows what is left of the active account: of its session beside the icon,
/// of both windows in the mode with text, and nothing in the hidden mode. What came with
/// an error is not shown.
pub proof fn law_title_shows_the_active_account(
    known: Map<Seq<char>, TrayUsageView>,
    active: Option<Seq<char>>,
)
    ensures
        title(known, active, TrayDisplayMode::Hidden) is None,
        ({
            let beside = title(known, active, TrayDisplayMode::IconAndSession);
            let words = title(known, active, TrayDisplayMode::ActiveUsageText);
            match active {
                None => beside is None && words == Some("Codex"@),
                Some(id) => {
                    let usage = known[id];
                    if known.contains_key(id) && !usage.has_error {
                        &&& beside == usage.session_left
                        &&& usage.session_left is Some && usage.week_left is Some ==> words == Some(
                            "H:"@ + usage.session_left->0 + " W:"@ + usage.week_left->0,
                        )
                        &&& usage.session_left is None && usage.week_left is Some ==> words == Some(
                            "H:"@ + "--"@ + " W:"@ + usage.week_left->0,
                        )
                        &&& usage.session_left is Some && usage.week_left is None ==> words == Some(
                            "H:"@ + usage.session_left->0 + " W:"@ + "--"@,
                        )
                        &&& usage.session_left is None && usage.week_left is None ==> words == Some(
                            "H:"@ + "--"@ + " W:"@ + "--"@,
                        )
                    } else {
                        beside is None && words == Some("H:"@ + "--"@ + " W:"@ + "--"@)
                    }
                },
            }
        }),
{
}

/// What is known of other accounts does not show in the title.
pub proof fn law_title_shows_no_other_account(
    known: Map<Seq<char>, TrayUsageView>,
    active: Option<Seq<char>>,
    mode: TrayDisplayMode,
    other: Seq<char>,
    usage: TrayUsageView,
)
    requires
        active != Some(other),
    ensures
        title(known.insert(other, usage), active, mode) == title(known, active, mode),
{
}

/// A switch that Codex processes block is shown with its reason, for the account that
/// was chosen; a switch that came about is announced.
pub proof fn law_blocked_switches_are_shown(
    follow_up: SwitchFollowUp,
    account_id: Seq<char>,
    error: Option<String>,
)
    requires
        is_follow_up(follow_up, account_id, error),
    ensures
        follow_up is Announce <==> error is None,
        follow_up is ShowBlocked <==> (error matches Some(reason) && text::starts_with_of(
            reason@,
            "Cannot switch accounts while "@,
        )),
        follow_up matches SwitchFollowUp::ShowBlocked { account_id: id, error: shown } ==> id@
            == account_id && error == Some(shown),
{
}

/// The icon is shown beside the session, taken away on macOS where there is only text,
/// and takes the colour of the menu bar nowhere else than there. The title comes after
/// the tray is shown.
pub proof fn law_icon_follows_the_mode(mode: TrayDisplayMode, platform: TrayPlatform)
    ensures
        changes(mode, platform).contains(TrayChange::RemoveIcon) <==> mode
            == TrayDisplayMode::ActiveUsageText && platform == TrayPlatform::MacOs,
        changes(mode, platform).contains(TrayChange::SetIcon) <==> platform
            == TrayPlatform::Windows && mode != TrayDisplayMode::Hidden || platform
            == TrayPlatform::MacOs && mode == TrayDisplayMode::IconAndSession,
        changes(mode, platform).contains(TrayChange::UseIconAsTemplate) <==> platform
            == TrayPlatform::MacOs && mode == TrayDisplayMode::IconAndSession,
        changes(mode, platform).contains(TrayChange::ClearTitle) <==> mode
            == TrayDisplayMode::Hidden,
        mode != TrayDisplayMode::Hidden ==> changes(mode, platform)[0] == TrayChange::Show,
        mode != TrayDisplayMode::Hidden ==> changes(mode, platform).last() == TrayChange::SetTitle,
        mode == TrayDisplayMode::Hidden ==> changes(mode, platform).last() == TrayChange::Hide,
{
    let all = changes(mode, platform);
    assert(all[0] == all[0]);
    if all.len() > 1 {
        assert(all[1] == all[1]);
    }
    if all.len() > 2 {
        assert(all[2] == all[2]);
    }
    if all.len() > 3 {
        assert(all[3] == all[3]);
    }
}

} // verus!
