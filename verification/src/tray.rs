//! The status-notifier tray: its labels, its menu, and the command each action asks of
//! the application window.
use vstd::prelude::*;

verus! {

broadcast use vstd::string::group_string_axioms;

/// What a tray action asks of the application.
#[derive(Debug, Clone, Copy, PartialEq, Eq, Structural)]
pub enum TrayCommand {
    Present,
    ToggleSync,
    Quit,
    WatcherOnline,
    WatcherOffline,
}

/// The translated texts and the icon of the tray.
#[derive(Debug, Clone)]
pub struct TrayLabels {
    pub icon_name: String,
    pub show_window: String,
    pub start_sync: String,
    pub stop_sync: String,
    pub quit: String,
    pub ready: String,
    pub syncing: String,
}

/// One entry of the tray menu: a labelled item with an icon and the command it sends, or
/// a separator.
#[derive(Debug, Clone)]
pub enum TrayMenuEntry {
    Item { label: String, icon_name: String, command: TrayCommand },
    Separator,
}

/// The tray's state: its labels and whether sync is running.
#[derive(Debug, Clone)]
pub struct LumaWayTray {
    pub labels: TrayLabels,
    pub running: bool,
}

impl LumaWayTray {
    /// The tray's identifier.
    pub fn id(&self) -> (r: &'static str)
        ensures
            r@ == "lumaway"@,
    {
        "lumaway"
    }

    /// The tray's title.
    pub fn title(&self) -> (r: &'static str)
        ensures
            r@ == "LumaWay"@,
    {
        "LumaWay"
    }

    /// The label of the sync item: stop while running, start otherwise.
    pub fn sync_label(&self) -> (r: String)
        ensures
            r@ == if self.running {
                self.labels.stop_sync@
            } else {
                self.labels.start_sync@
            },
    {
        if self.running {
            self.labels.stop_sync.clone()
        } else {
            self.labels.start_sync.clone()
        }
    }

    /// The icon of the sync item.
    pub fn sync_icon(&self) -> (r: &'static str)
        ensures
            r@ == if self.running {
                "media-playback-stop"@
            } else {
                "media-playback-start"@
            },
    {
        if self.running {
            "media-playback-stop"
        } else {
            "media-playback-start"
        }
    }

    /// The tooltip text: syncing while running, ready otherwise.
    pub fn tooltip_description(&self) -> (r: String)
        ensures
            r@ == if self.running {
                self.labels.syncing@
            } else {
                self.labels.ready@
            },
    {
        if self.running {
            self.labels.syncing.clone()
        } else {
            self.labels.ready.clone()
        }
    }

    /// A click on the tray icon brings the window forward.
    pub fn activate(&mut self, x: i32, y: i32) -> (r: TrayCommand)
        ensures
            r == TrayCommand::Present,
            final(self).running == old(self).running,
    {
        TrayCommand::Present
    }

    /// The status-notifier host came up.
    pub fn watcher_online(&self) -> (r: TrayCommand)
        ensures
            r == TrayCommand::WatcherOnline,
    {
        TrayCommand::WatcherOnline
    }

    /// The status-notifier host went away; the tray stays alive (`true`).
    pub fn watcher_offline(&self) -> (r: (TrayCommand, bool))
        ensures
            r == (TrayCommand::WatcherOffline, true),
    {
        (TrayCommand::WatcherOffline, true)
    }

    /// The menu: show the window, start or stop sync, a separator, quit.
    pub fn menu(&self) -> (r: Vec<TrayMenuEntry>)
        ensures
            r@.len() == 4,
            r@[0] matches TrayMenuEntry::Item { label, icon_name, command } && label@
                == self.labels.show_window@ && icon_name@ == "window-new"@ && command
                == TrayCommand::Present,
            r@[1] matches TrayMenuEntry::Item { label, icon_name, command } && label@ == (
            if self.running {
                self.labels.stop_sync@
            } else {
                self.labels.start_sync@
            }) && icon_name@ == (if self.running {
                "media-playback-stop"@
            } else {
                "media-playback-start"@
            }) && command == TrayCommand::ToggleSync,
            r@[2] is Separator,
            r@[3] matches TrayMenuEntry::Item { label, icon_name, command } && label@
                == self.labels.quit@ && icon_name@ == "application-exit"@ && command
                == TrayCommand::Quit,
    {
        let mut items: Vec<TrayMenuEntry> = Vec::new();
        items.push(
            TrayMenuEntry::Item {
                label: self.labels.show_window.clone(),
                icon_name: "window-new".to_string(),
                command: TrayCommand::Present,
            },
        );
        items.push(
            TrayMenuEntry::Item {
                label: self.sync_label(),
                icon_name: self.sync_icon().to_string(),
                command: TrayCommand::ToggleSync,
            },
        );
        items.push(TrayMenuEntry::Separator);
        items.push(
            TrayMenuEntry::Item {
                label: self.labels.quit.clone(),
                icon_name: "application-exit".to_string(),
                command: TrayCommand::Quit,
            },
        );
        items
    }
}

} // verus!
