//! The dialog in which a place is chosen and shared.

use vstd::prelude::*;

use crate::text::{digits, push_number};

verus! {

/// How far the map is zoomed in at first, and between which limits that can be changed.
pub const DEFAULT_ZOOM: u8 = 12;

pub const MIN_ZOOM: u8 = 3;

pub const MAX_ZOOM: u8 = 17;

/// How many tiles the map has.
pub const TILES: usize = 9;

/// How wide a tile is, in pixels.
pub const CELL: u32 = 96;

/// A point on the earth. Its two coordinates are floating-point numbers, of which
/// only the bits are kept here.
#[derive(Debug, Clone, Copy, PartialEq, Eq, Structural)]
pub struct GeoPoint {
    pub lat_bits: u64,
    pub lon_bits: u64,
}

/// What can be asked for from the dialog.
#[derive(Debug, Clone, Copy, PartialEq, Eq, Structural)]
pub enum LocationDialogAction {
    Close,
    /// Shares a point, for so many seconds where it is to move.
    Send { point: GeoPoint, live_secs: Option<u32> },
}

/// What the button that shares says.
#[derive(Debug, Clone, Copy, PartialEq, Eq, Structural)]
pub enum SendLabel {
    Send,
    Update,
    Sending,
    Retry,
}

impl SendLabel {
    pub fn text(self) -> (text: &'static str)
        ensures
            text@ == (match self {
                SendLabel::Send => "Send"@,
                SendLabel::Update => "Update"@,
                SendLabel::Sending => "Sending…"@,
                SendLabel::Retry => "Retry"@,
            }),
    {
        match self {
            SendLabel::Send => "Send",
            SendLabel::Update => "Update",
            SendLabel::Sending => "Sending…",
            SendLabel::Retry => "Retry",
        }
    }
}

/// For how many seconds a place is shared, by the choice that is selected.
pub open spec fn seconds_of_choice(choice: u32) -> Option<u32> {
    if choice == 1 {
        Some(900)
    } else if choice == 2 {
        Some(3600)
    } else if choice == 3 {
        Some(28800)
    } else {
        None
    }
}

fn choice_seconds(choice: u32) -> (seconds: Option<u32>)
    ensures
        seconds == seconds_of_choice(choice),
{
    match choice {
        1 => Some(900),
        2 => Some(3600),
        3 => Some(28800),
        _ => None,
    }
}

/// What the choices say.
pub fn choice_labels() -> (labels: Vec<&'static str>)
    ensures
        labels@.len() == 4,
        labels@[0]@ == "Off"@,
        labels@[1]@ == "15 min"@,
        labels@[2]@ == "1 h"@,
        labels@[3]@ == "8 h"@,
{
    let mut labels: Vec<&'static str> = Vec::new();
    labels.push("Off");
    labels.push("15 min");
    labels.push("1 h");
    labels.push("8 h");
    labels
}

/// How far the map is zoomed in once a zoom was asked for.
pub open spec fn clamped_zoom(zoom: int) -> int {
    if zoom < MIN_ZOOM {
        MIN_ZOOM as int
    } else if zoom > MAX_ZOOM {
        MAX_ZOOM as int
    } else {
        zoom
    }
}

/// By how many tiles a tile lies to the right of and below the middle one.
pub fn cell_offset(index: usize) -> (offset: (i32, i32))
    requires
        index < TILES,
    ensures
        offset.0 == index as int % 3 - 1,
        offset.1 == index as int / 3 - 1,
{
    ((index % 3) as i32 - 1, (index / 3) as i32 - 1)
}

/// What is said where tiles of the map are missing.
pub open spec fn failure_words(failures: int) -> Seq<char> {
    "Map unavailable ("@ + digits(failures)
        + " of 9 tiles failed). You can still send or change the point to retry."@
}

/// The state of the map.
#[derive(Debug, Clone, Copy, PartialEq, Eq, Structural)]
pub struct MapState {
    pub tiles_enabled: bool,
    pub grid_visible: bool,
    pub zoom: u8,
    /// The number that a tile must name to be shown.
    pub generation: u64,
    pub pending: usize,
    pub failures: usize,
}

impl MapState {
    /// A map whose tiles are about to be loaded.
    pub open spec fn refreshed(self) -> MapState {
        if self.tiles_enabled {
            MapState {
                grid_visible: true,
                generation: self.generation.wrapping_add(1),
                pending: TILES,
                failures: 0,
                ..self
            }
        } else {
            MapState { grid_visible: false, pending: 0, failures: 0, ..self }
        }
    }

    /// The state of the map once one of its tiles came or did not.
    pub open spec fn after_tile(self, loaded: bool) -> MapState {
        MapState {
            pending: (self.pending - 1) as usize,
            failures: if loaded {
                self.failures
            } else if self.failures < usize::MAX {
                (self.failures + 1) as usize
            } else {
                self.failures
            },
            ..self
        }
    }
}

/// The dialog.
pub struct LocationDialog {
    pub open: bool,
    pub is_update: bool,
    pub live_row: bool,
    pub live_selected: u32,
    pub send_label: SendLabel,
    pub send_sensitive: bool,
    pub fields_sensitive: bool,
    pub error: String,
    pub error_visible: bool,
    pub map_error: String,
    pub map_error_visible: bool,
    pub point: GeoPoint,
    /// The point that the two fields hold, where they hold one.
    pub typed: Option<GeoPoint>,
    pub map: MapState,
    pub busy: bool,
}

impl LocationDialog {
    /// The zoom keeps its limits, and tiles failed only if there were tiles.
    pub open spec fn well_formed(self) -> bool {
        &&& MIN_ZOOM <= self.map.zoom <= MAX_ZOOM
        &&& self.map.pending + self.map.failures <= TILES
    }

    pub fn new(point: GeoPoint) -> (dialog: LocationDialog)
        ensures
            dialog.well_formed(),
            !dialog.open,
            !dialog.is_update,
            dialog.live_row,
            dialog.live_selected == 0,
            dialog.send_label is Send,
            dialog.send_sensitive,
            dialog.fields_sensitive,
            dialog.error@.len() == 0,
            !dialog.error_visible,
            dialog.map_error@.len() == 0,
            !dialog.map_error_visible,
            dialog.point == point,
            dialog.typed is None,
            dialog.map == (MapState {
                tiles_enabled: true,
                grid_visible: true,
                zoom: DEFAULT_ZOOM,
                generation: 0,
                pending: 0,
                failures: 0,
            }),
            !dialog.busy,
    {
        LocationDialog {
            open: false,
            is_update: false,
            live_row: true,
            live_selected: 0,
            send_label: SendLabel::Send,
            send_sensitive: true,
            fields_sensitive: true,
            error: String::new(),
            error_visible: false,
            map_error: String::new(),
            map_error_visible: false,
            point,
            typed: None,
            map: MapState {
                tiles_enabled: true,
                grid_visible: true,
                zoom: DEFAULT_ZOOM,
                generation: 0,
                pending: 0,
                failures: 0,
            },
            busy: false,
        }
    }

    /// Whether all is as it is right after a point was chosen.
    pub open spec fn at_point(self, before: MapState, point: GeoPoint, typed: Option<GeoPoint>) -> bool {
        &&& self.point == point
        &&& self.typed == typed
        &&& self.error@.len() == 0
        &&& !self.error_visible
        &&& self.map_error@.len() == 0
        &&& !self.map_error_visible
        &&& self.send_sensitive == !self.busy
        &&& self.map == before.refreshed()
    }

    /// Opens the dialog to share a place. `typed` is what its fields hold once the
    /// point is written into them. Returns the number that the tiles of the map must
    /// name, where there are any.
    pub fn begin(&mut self, point: GeoPoint, typed: Option<GeoPoint>, map_tiles: bool) -> (tiles:
        Option<u64>)
        ensures
            final(self).well_formed(),
            final(self).open,
            !final(self).is_update,
            final(self).live_row,
            final(self).live_selected == 0,
            final(self).send_label is Send,
            !final(self).busy,
            final(self).fields_sensitive == old(self).fields_sensitive,
            final(self).at_point(
                MapState {
                    tiles_enabled: map_tiles,
                    zoom: DEFAULT_ZOOM,
                    generation: old(self).map.generation.wrapping_add(1),
                    ..old(self).map
                },
                point,
                typed,
            ),
            tiles == (if map_tiles { Some(final(self).map.generation) } else { None }),
    {
        let map = self.map;
        self.map = MapState {
            tiles_enabled: map_tiles,
            zoom: DEFAULT_ZOOM,
            generation: map.generation.wrapping_add(1),
            ..map
        };
        self.is_update = false;
        self.live_row = true;
        self.busy = false;
        self.send_label = SendLabel::Send;
        self.live_selected = 0;
        let tiles = self.set_point(point, typed);
        self.open = true;
        tiles
    }

    /// Opens the dialog to move a place that is being shared.
    pub fn begin_update(&mut self, point: GeoPoint, typed: Option<GeoPoint>, map_tiles: bool) -> (
        tiles: Option<u64>)
        ensures
            final(self).well_formed(),
            final(self).open,
            final(self).is_update,
            !final(self).live_row,
            final(self).live_selected == old(self).live_selected,
            final(self).send_label is Update,
            !final(self).busy,
            final(self).fields_sensitive == old(self).fields_sensitive,
            final(self).at_point(
                MapState {
                    tiles_enabled: map_tiles,
                    zoom: DEFAULT_ZOOM,
                    generation: old(self).map.generation.wrapping_add(1),
                    ..old(self).map
                },
                point,
                typed,
            ),
            tiles == (if map_tiles { Some(final(self).map.generation) } else { None }),
    {
        let map = self.map;
        self.map = MapState {
            tiles_enabled: map_tiles,
            zoom: DEFAULT_ZOOM,
            generation: map.generation.wrapping_add(1),
            ..map
        };
        self.is_update = true;
        self.live_row = false;
        self.busy = false;
        self.send_label = SendLabel::Update;
        let tiles = self.set_point(point, typed);
        self.open = true;
        tiles
    }

    /// Loads the tiles of the map anew.
    pub fn refresh_grid(&mut self) -> (tiles: Option<u64>)
        requires
            MIN_ZOOM <= old(self).map.zoom <= MAX_ZOOM,
        ensures
            final(self).well_formed(),
            final(self).map == old(self).map.refreshed(),
            final(self).map_error@.len() == 0,
            tiles == (if old(self).map.tiles_enabled {
                Some(final(self).map.generation)
            } else {
                None
            }),
            *final(self) == (LocationDialog {
                map: final(self).map,
                map_error: final(self).map_error,
                map_error_visible: false,
                ..*old(self)
            }),
    {
        let map = self.map;
        self.map_error = String::new();
        self.map_error_visible = false;
        if !map.tiles_enabled {
            self.map = MapState { grid_visible: false, pending: 0, failures: 0, ..map };
            return None;
        }
        let generation: u64 = map.generation.wrapping_add(1);
        self.map = MapState { grid_visible: true, generation, pending: TILES, failures: 0, ..map };
        Some(generation)
    }

    /// Chooses a point.
    pub fn set_point(&mut self, point: GeoPoint, typed: Option<GeoPoint>) -> (tiles: Option<u64>)
        requires
            MIN_ZOOM <= old(self).map.zoom <= MAX_ZOOM,
        ensures
            final(self).well_formed(),
            final(self).at_point(old(self).map, point, typed),
            tiles == (if old(self).map.tiles_enabled {
                Some(final(self).map.generation)
            } else {
                None
            }),
            *final(self) == (LocationDialog {
                point,
                typed,
                error: final(self).error,
                error_visible: false,
                map: final(self).map,
                map_error: final(self).map_error,
                map_error_visible: false,
                send_sensitive: !old(self).busy,
                ..*old(self)
            }),
    {
        self.point = point;
        self.typed = typed;
        self.error = String::new();
        self.error_visible = false;
        self.send_sensitive = !self.busy;
        self.refresh_grid()
    }

    /// What was typed into the fields changed. `typed` is the point that they hold,
    /// where they hold one that is on the earth.
    pub fn entries_changed(&mut self, typed: Option<GeoPoint>) -> (tiles: Option<u64>)
        requires
            old(self).well_formed(),
        ensures
            final(self).well_formed(),
            final(self).typed == typed,
            match typed {
                Some(point) => {
                    &&& final(self).at_point(old(self).map, point, typed)
                    &&& tiles == (if old(self).map.tiles_enabled {
                        Some(final(self).map.generation)
                    } else {
                        None
                    })
                },
                None => {
                    &&& tiles is None
                    &&& final(self).point == old(self).point
                    &&& final(self).error@ == "latitude −90..90, longitude −180..180"@
                    &&& final(self).error_visible
                    &&& !final(self).send_sensitive
                    &&& final(self).map == old(self).map
                    &&& final(self).map_error == old(self).map_error
                    &&& final(self).map_error_visible == old(self).map_error_visible
                },
            },
            *final(self) == (LocationDialog {
                point: final(self).point,
                typed,
                error: final(self).error,
                error_visible: final(self).error_visible,
                map: final(self).map,
                map_error: final(self).map_error,
                map_error_visible: final(self).map_error_visible,
                send_sensitive: final(self).send_sensitive,
                ..*old(self)
            }),
    {
        match typed {
            Some(point) => self.set_point(point, typed),
            None => {
                self.typed = None;
                self.error = "latitude −90..90, longitude −180..180".to_owned();
                self.error_visible = true;
                self.send_sensitive = false;
                None
            },
        }
    }

    /// The middle of a tile is chosen, unless a place is being sent.
    pub fn pick_cell(&mut self, center: GeoPoint, typed: Option<GeoPoint>) -> (tiles: Option<u64>)
        requires
            old(self).well_formed(),
        ensures
            final(self).well_formed(),
            old(self).busy ==> tiles is None && *final(self) == *old(self),
            !old(self).busy ==> {
                &&& final(self).at_point(old(self).map, center, typed)
                &&& tiles == (if old(self).map.tiles_enabled {
                    Some(final(self).map.generation)
                } else {
                    None
                })
                &&& *final(self) == (LocationDialog {
                    point: center,
                    typed,
                    error: final(self).error,
                    error_visible: false,
                    map: final(self).map,
                    map_error: final(self).map_error,
                    map_error_visible: false,
                    send_sensitive: true,
                    ..*old(self)
                })
            },
    {
        if self.busy {
            return None;
        }
        self.set_point(center, typed)
    }

    /// Zooms the map. Returns the number that its tiles must name, where they are
    /// loaded anew.
    fn set_zoom(&mut self, zoom: u8) -> (tiles: Option<u64>)
        requires
            old(self).well_formed(),
        ensures
            final(self).well_formed(),
            clamped_zoom(zoom as int) == old(self).map.zoom ==> *final(self) == *old(self)
                && tiles is None,
            clamped_zoom(zoom as int) != old(self).map.zoom ==> {
                &&& final(self).map == (MapState {
                    zoom: clamped_zoom(zoom as int) as u8,
                    ..old(self).map
                }).refreshed()
                &&& final(self).map_error@.len() == 0
                &&& !final(self).map_error_visible
                &&& tiles == (if old(self).map.tiles_enabled {
                    Some(final(self).map.generation)
                } else {
                    None
                })
            },
            *final(self) == (LocationDialog {
                map: final(self).map,
                map_error: final(self).map_error,
                map_error_visible: final(self).map_error_visible,
                ..*old(self)
            }),
    {
        let zoom: u8 = if zoom < MIN_ZOOM {
            MIN_ZOOM
        } else if zoom > MAX_ZOOM {
            MAX_ZOOM
        } else {
            zoom
        };
        if zoom == self.map.zoom {
            return None;
        }
        let map = self.map;
        self.map = MapState { zoom, ..map };
        self.refresh_grid()
    }

    /// Zooms the map in by one step.
    pub fn zoom_in(&mut self) -> (tiles: Option<u64>)
        requires
            old(self).well_formed(),
        ensures
            final(self).well_formed(),
            final(self).map.zoom == clamped_zoom(old(self).map.zoom + 1),
            final(self).map.zoom == old(self).map.zoom ==> *final(self) == *old(self)
                && tiles is None,
            final(self).map.zoom != old(self).map.zoom ==> {
                &&& final(self).map == (MapState {
                    zoom: final(self).map.zoom,
                    ..old(self).map
                }).refreshed()
                &&& tiles == (if old(self).map.tiles_enabled {
                    Some(final(self).map.generation)
                } else {
                    None
                })
                &&& final(self).map_error@.len() == 0
                &&& !final(self).map_error_visible
            },
            *final(self) == (LocationDialog {
                map: final(self).map,
                map_error: final(self).map_error,
                map_error_visible: final(self).map_error_visible,
                ..*old(self)
            }),
    {
        let zoom = self.map.zoom;
        self.set_zoom(zoom.saturating_add(1))
    }

    /// Zooms the map out by one step.
    pub fn zoom_out(&mut self) -> (tiles: Option<u64>)
        requires
            old(self).well_formed(),
        ensures
            final(self).well_formed(),
            final(self).map.zoom == clamped_zoom(old(self).map.zoom - 1),
            final(self).map.zoom == old(self).map.zoom ==> *final(self) == *old(self)
                && tiles is None,
            final(self).map.zoom != old(self).map.zoom ==> {
                &&& final(self).map == (MapState {
                    zoom: final(self).map.zoom,
                    ..old(self).map
                }).refreshed()
                &&& tiles == (if old(self).map.tiles_enabled {
                    Some(final(self).map.generation)
                } else {
                    None
                })
                &&& final(self).map_error@.len() == 0
                &&& !final(self).map_error_visible
            },
            *final(self) == (LocationDialog {
                map: final(self).map,
                map_error: final(self).map_error,
                map_error_visible: final(self).map_error_visible,
                ..*old(self)
            }),
    {
        let zoom = self.map.zoom;
        self.set_zoom(zoom.saturating_sub(1))
    }

    /// What the zoom's label says, and whether the map can be zoomed out and in.
    pub fn zoom_controls(&self) -> (controls: (String, bool, bool))
        ensures
            controls.0@ == "zoom "@ + digits(self.map.zoom as int),
            controls.1 == (self.map.zoom > MIN_ZOOM),
            controls.2 == (self.map.zoom < MAX_ZOOM),
    {
        let mut label = "zoom ".to_owned();
        push_number(&mut label, self.map.zoom as u64);
        (label, self.map.zoom > MIN_ZOOM, self.map.zoom < MAX_ZOOM)
    }

    /// A tile of the map came, or did not. A tile of an earlier map is not shown.
    /// Returns whether the tile belongs to the map that is shown.
    pub fn complete_tile(&mut self, generation: u64, loaded: bool) -> (current: bool)
        requires
            old(self).well_formed(),
        ensures
            final(self).well_formed(),
            current == (old(self).map.generation == generation && old(self).map.pending > 0),
            !current ==> *final(self) == *old(self),
            current ==> {
                &&& final(self).map == old(self).map.after_tile(loaded)
                &&& if final(self).map.pending == 0 && final(self).map.failures > 0 {
                    &&& final(self).map_error@ == failure_words(final(self).map.failures as int)
                    &&& final(self).map_error_visible
                } else {
                    &&& final(self).map_error == old(self).map_error
                    &&& final(self).map_error_visible == old(self).map_error_visible
                }
            },
            *final(self) == (LocationDialog {
                map: final(self).map,
                map_error: final(self).map_error,
                map_error_visible: final(self).map_error_visible,
                ..*old(self)
            }),
    {
        let map = self.map;
        if map.generation != generation || map.pending == 0 {
            return false;
        }
        let failures: usize = if loaded { map.failures } else { map.failures + 1 };
        let pending: usize = map.pending - 1;
        self.map = MapState { pending, failures, ..map };
        if pending == 0 && failures > 0 {
            let mut text = "Map unavailable (".to_owned();
            push_number(&mut text, failures as u64);
            text.push_str(
                " of 9 tiles failed). You can still send or change the point to retry.",
            );
            self.map_error = text;
            self.map_error_visible = true;
        }
        true
    }

    /// The choice for how long a place is shared changed.
    pub fn set_live(&mut self, choice: u32)
        ensures
            *final(self) == (LocationDialog { live_selected: choice, ..*old(self) }),
    {
        self.live_selected = choice;
    }

    /// The button that shares was pressed. Returns what is asked for. A place that is
    /// moved keeps the time for which it is shared.
    pub fn send(&mut self) -> (action: Option<LocationDialogAction>)
        ensures
            action == (if old(self).busy || old(self).typed is None {
                None::<LocationDialogAction>
            } else {
                Some(
                    LocationDialogAction::Send {
                        point: old(self).typed->0,
                        live_secs: if old(self).is_update {
                            None::<u32>
                        } else {
                            seconds_of_choice(old(self).live_selected)
                        },
                    },
                )
            }),
            *final(self) == (LocationDialog {
                point: if action is Some { old(self).typed->0 } else { old(self).point },
                ..*old(self)
            }),
    {
        if self.busy {
            return None;
        }
        let point = match self.typed {
            Some(point) => point,
            None => return None,
        };
        self.point = point;
        let live_secs = if self.is_update { None } else { choice_seconds(self.live_selected) };
        Some(LocationDialogAction::Send { point, live_secs })
    }

    /// What the button says while nothing is sent.
    pub open spec fn idle_label(self) -> SendLabel {
        if self.is_update {
            SendLabel::Update
        } else {
            SendLabel::Send
        }
    }

    /// A place is being sent, or no longer is.
    pub fn set_busy(&mut self, busy: bool)
        ensures
            *final(self) == (LocationDialog {
                busy,
                send_label: if busy { SendLabel::Sending } else { old(self).idle_label() },
                fields_sensitive: !busy,
                send_sensitive: !busy && old(self).typed is Some,
                ..*old(self)
            }),
    {
        self.busy = busy;
        self.send_label = if busy {
            SendLabel::Sending
        } else if self.is_update {
            SendLabel::Update
        } else {
            SendLabel::Send
        };
        self.fields_sensitive = !busy;
        self.send_sensitive = !busy && self.typed.is_some();
    }

    /// A place could not be sent.
    pub fn show_error(&mut self, error: &str)
        ensures
            final(self).error@ == error@,
            *final(self) == (LocationDialog {
                busy: false,
                send_label: SendLabel::Retry,
                fields_sensitive: true,
                send_sensitive: old(self).typed is Some,
                error: final(self).error,
                error_visible: true,
                ..*old(self)
            }),
    {
        self.set_busy(false);
        self.send_label = SendLabel::Retry;
        self.error = error.to_owned();
        self.error_visible = true;
    }

    /// Closes the dialog. No tile that is still to come will be shown.
    pub fn close(&mut self)
        requires
            old(self).well_formed(),
        ensures
            final(self).well_formed(),
            !old(self).open ==> *final(self) == *old(self),
            old(self).open ==> *final(self) == (LocationDialog {
                open: false,
                map: MapState {
                    generation: old(self).map.generation.wrapping_add(1),
                    ..old(self).map
                },
                busy: false,
                send_label: old(self).idle_label(),
                fields_sensitive: true,
                send_sensitive: old(self).typed is Some,
                live_row: true,
                is_update: false,
                ..*old(self)
            }),
    {
        if !self.open {
            return;
        }
        let map = self.map;
        self.map = MapState { generation: map.generation.wrapping_add(1), ..map };
        self.open = false;
        self.set_busy(false);
        self.live_row = true;
        self.is_update = false;
    }

    /// What the dialog is called.
    pub fn heading(&self) -> (heading: &'static str)
        ensures
            heading@ == (if self.is_update { "Update position"@ } else { "Share location"@ }),
    {
        if self.is_update {
            "Update position"
        } else {
            "Share location"
        }
    }

    pub fn is_open(&self) -> (open: bool)
        ensures
            open == self.open,
    {
        self.open
    }

    pub fn point(&self) -> (point: GeoPoint)
        ensures
            point == self.point,
    {
        self.point
    }

    pub fn probe_zoom(&self) -> (zoom: u8)
        ensures
            zoom == self.map.zoom,
    {
        self.map.zoom
    }

    pub fn probe_can_send(&self) -> (answer: bool)
        ensures
            answer == self.send_sensitive,
    {
        self.send_sensitive
    }

    pub fn probe_error(&self) -> (error: String)
        ensures
            error == self.error,
    {
        self.error.clone()
    }

    pub fn probe_grid_visible(&self) -> (visible: bool)
        ensures
            visible == self.map.grid_visible,
    {
        self.map.grid_visible
    }

    pub fn probe_map_error(&self) -> (error: String)
        ensures
            error == self.map_error,
    {
        self.map_error.clone()
    }

    /// Lets the only tile of a map fail.
    pub fn probe_fail_map_fetch(&mut self)
        requires
            old(self).well_formed(),
        ensures
            final(self).well_formed(),
            final(self).map == (MapState {
                generation: old(self).map.generation.wrapping_add(1),
                pending: 0,
                failures: 1,
                ..old(self).map
            }),
            final(self).map_error@ == failure_words(1),
            *final(self) == (LocationDialog {
                map: final(self).map,
                map_error: final(self).map_error,
                map_error_visible: true,
                ..*old(self)
            }),
    {
        let map = self.map;
        let generation: u64 = map.generation.wrapping_add(1);
        self.map = MapState { generation, pending: 1, failures: 0, ..map };
        let _current = self.complete_tile(generation, false);
    }
}

/// Once a map is loaded anew, no tile of the earlier one is shown.
pub proof fn law_earlier_tiles_are_dropped(map: MapState)
    requires
        map.tiles_enabled,
    ensures
        map.refreshed().generation != map.generation,
        map.refreshed().pending == TILES,
{
}

/// A map complains exactly where one of its tiles is missing: the tiles that are
/// counted as failed and those that came make up the map.
pub proof fn law_tiles_are_counted(map: MapState, loaded: bool)
    requires
        map.pending > 0,
        map.pending + map.failures <= TILES,
    ensures
        map.after_tile(loaded).pending + map.after_tile(loaded).failures <= TILES,
        map.after_tile(loaded).failures == map.failures + (if loaded { 0int } else { 1int }),
{
}

} // verus!
