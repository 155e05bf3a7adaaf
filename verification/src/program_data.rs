use vstd::prelude::*;
use crate::keyed_map::KeyedMap;
use crate::map::{MapDataCollection, MapGen};
use crate::mapped_id::TilesheetCDDAId;
use crate::tileset::FgBgIds;
use crate::types::CDDAIdentifier;

verus! {

/// The actions that a key binding can trigger.
#[derive(Debug, Clone, Copy, PartialEq, Eq, Structural)]
pub enum KeybindAction {
    NewProject,
    OpenProject,
    SaveProject,
    CloseTab,
    CloseAllTabs,
    ImportMap,
    ExportMap,
    OpenSettings,
    Undo,
    Redo,
    Copy,
    Paste,
    Draw,
    Fill,
    Erase,
    ReloadMap,
}

/// A key with its modifiers and the action it triggers.
pub struct Keybind {
    pub key: String,
    pub with_alt: bool,
    pub with_shift: bool,
    pub with_ctrl: bool,
    pub action: Option<KeybindAction>,
}

impl Keybind {
    /// The key alone, without an action.
    pub fn single(key: String) -> (r: Keybind)
        ensures
            r.key == key && !r.with_alt && !r.with_shift && !r.with_ctrl && r.action is None,
    {
        Keybind { key, with_alt: false, with_shift: false, with_ctrl: false, action: None }
    }

    /// The key with alt, without an action.
    pub fn with_alt(key: String) -> (r: Keybind)
        ensures
            r.key == key && r.with_alt && !r.with_shift && !r.with_ctrl && r.action is None,
    {
        Keybind { key, with_alt: true, with_shift: false, with_ctrl: false, action: None }
    }

    /// The key with control, without an action.
    pub fn with_ctrl(key: String) -> (r: Keybind)
        ensures
            r.key == key && !r.with_alt && !r.with_shift && r.with_ctrl && r.action is None,
    {
        Keybind { key, with_alt: false, with_shift: false, with_ctrl: true, action: None }
    }

    /// The key with shift, without an action.
    pub fn with_shift(key: String) -> (r: Keybind)
        ensures
            r.key == key && !r.with_alt && r.with_shift && !r.with_ctrl && r.action is None,
    {
        Keybind { key, with_alt: false, with_shift: true, with_ctrl: false, action: None }
    }

    /// The key with control and alt, without an action.
    pub fn with_ctrl_alt(key: String) -> (r: Keybind)
        ensures
            r.key == key && r.with_alt && !r.with_shift && r.with_ctrl && r.action is None,
    {
        Keybind { key, with_alt: true, with_shift: false, with_ctrl: true, action: None }
    }

    /// The same binding triggering `action`.
    pub fn action(self, action: KeybindAction) -> (r: Keybind)
        ensures
            r.key == self.key && r.with_alt == self.with_alt && r.with_shift == self.with_shift && r.with_ctrl
                == self.with_ctrl && r.action == Some(action),
    {
        let mut s = self;
        s.action = Some(action);
        s
    }
}

pub enum MapSizeError {
    InvalidMultiple(u32),
}

/// The size of a map editor in cells.
pub struct MapSize((u32, u32));

impl MapSize {
    /// The width and height.
    pub closed spec fn spec_value(&self) -> (u32, u32) {
        self.0
    }

    /// A side of 24 or more must be a multiple of 24; sides below 24 are
    /// accepted as they are. The width is checked first.
    pub fn new(width: u32, height: u32) -> (r: Result<MapSize, MapSizeError>)
        ensures
            width >= 24 && width % 24 != 0 ==> (r matches Err(MapSizeError::InvalidMultiple(w)) && w == width),
            !(width >= 24 && width % 24 != 0) && height >= 24 && height % 24 != 0 ==> (r matches Err(
                MapSizeError::InvalidMultiple(h),
            ) && h == height),
            !(width >= 24 && width % 24 != 0) && !(height >= 24 && height % 24 != 0) ==> (r matches Ok(s)
                && s.spec_value() == (width, height)),
    {
        if width >= 24 && width % 24 != 0 {
            return Err(MapSizeError::InvalidMultiple(width));
        }
        if height >= 24 && height % 24 != 0 {
            return Err(MapSizeError::InvalidMultiple(height));
        }
        Ok(MapSize((width, height)))
    }

    pub fn value(&self) -> (r: (u32, u32))
        ensures
            r == self.spec_value(),
    {
        self.0
    }
}

pub enum ZLevelsError {
    InvalidOrder((i32, i32)),
}

/// A range of z-levels.
pub struct ZLevels((i32, i32));

impl ZLevels {
    /// The first and the second level.
    pub closed spec fn spec_value(&self) -> (i32, i32) {
        self.0
    }

    /// The levels as read from a pair: the start must not be above the
    /// end, so a pair whose first level is above the second is refused.
    pub fn new(levels: (i32, i32)) -> (r: Result<ZLevels, ZLevelsError>)
        ensures
            levels.0 > levels.1 <==> r is Err,
            r matches Ok(z) ==> z.spec_value() == levels,
            r matches Err(ZLevelsError::InvalidOrder(p)) ==> p == levels,
    {
        if levels.0 > levels.1 {
            return Err(ZLevelsError::InvalidOrder(levels));
        }
        Ok(ZLevels(levels))
    }

    pub fn value(&self) -> (r: (i32, i32))
        ensures
            r == self.spec_value(),
    {
        self.0
    }
}

#[derive(Debug, Clone, Copy, PartialEq, Eq, Structural)]
pub enum ToastType {
    Success,
    Error,
}

/// A message shown to the user.
pub struct ToastMessage {
    pub ty: ToastType,
    pub message: String,
}

impl ToastMessage {
    pub fn success(message: String) -> (r: ToastMessage)
        ensures
            r.ty == ToastType::Success && r.message == message,
    {
        ToastMessage { ty: ToastType::Success, message }
    }

    pub fn error(message: String) -> (r: ToastMessage)
        ensures
            r.ty == ToastType::Error && r.message == message,
    {
        ToastMessage { ty: ToastType::Error, message }
    }
}

/// Whether a project was saved, and where.
pub enum ProjectState {
    Unsaved,
    Saved { path: String },
}

/// The kinds of tabs of the editor.
pub enum TabType {
    Welcome,
    MapEditor(ProjectState),
    LiveViewer,
}

pub struct Tab {
    pub name: String,
    pub tab_type: TabType,
}

/// Where a saved project lies.
pub struct SavedProject {
    pub path: String,
}

pub enum CDDAPathError {
    NoCDDAPathSet,
}

pub enum SelectedTilesetError {
    NoTilesetSelected,
}

/// A change to the palettes of a map.
pub enum ModifyPaletteAction {
    AddPalette { palette_name: CDDAIdentifier },
    RemovePalette { index: usize },
}

/// A change to the palettes of every map of a project.
pub enum ModifyGlobalPaletteAction {
    AddPalette { palette_name: CDDAIdentifier },
    RemovePalette { palette_name: CDDAIdentifier },
}

/// The sprites that stand for a character of a map on one layer.
pub struct CharacterMapping {
    pub id: TilesheetCDDAId,
    pub ids: FgBgIds<Option<u32>, Option<u32>>,
}

/// The sprites that stand for a character of a map on each layer.
pub struct CharacterMappingCollection {
    pub terrain: Option<CharacterMapping>,
    pub furniture: Option<CharacterMapping>,
    pub monster: Option<CharacterMapping>,
    pub field: Option<CharacterMapping>,
}

/// The decimal digits of a number.
pub open spec fn spec_decimal(n: nat) -> Seq<char>
    decreases n,
{
    if n < 10 {
        seq![digit_char(n)]
    } else {
        spec_decimal(n / 10) + seq![digit_char(n % 10)]
    }
}

pub open spec fn digit_char(d: nat) -> char {
    if d == 0 {
        '0'
    } else if d == 1 {
        '1'
    } else if d == 2 {
        '2'
    } else if d == 3 {
        '3'
    } else if d == 4 {
        '4'
    } else if d == 5 {
        '5'
    } else if d == 6 {
        '6'
    } else if d == 7 {
        '7'
    } else if d == 8 {
        '8'
    } else {
        '9'
    }
}

/// A number as written in decimal, with a `-` before a negative one.
pub open spec fn spec_signed_decimal(n: int) -> Seq<char> {
    if n < 0 {
        seq!['-'] + spec_decimal((-n) as nat)
    } else {
        spec_decimal(n as nat)
    }
}

fn push_digit(s: &mut String, d: u64)
    requires
        d < 10,
    ensures
        final(s)@ == old(s)@ + seq![digit_char(d as nat)],
{
    let t = match d {
        0 => "0",
        1 => "1",
        2 => "2",
        3 => "3",
        4 => "4",
        5 => "5",
        6 => "6",
        7 => "7",
        8 => "8",
        _ => "9",
    };
    proof {
        reveal_strlit("0");
        reveal_strlit("1");
        reveal_strlit("2");
        reveal_strlit("3");
        reveal_strlit("4");
        reveal_strlit("5");
        reveal_strlit("6");
        reveal_strlit("7");
        reveal_strlit("8");
        reveal_strlit("9");
    }
    s.append(t);
}

/// Appends the decimal digits of `n`.
fn append_decimal(s: &mut String, n: u64)
    ensures
        final(s)@ == old(s)@ + spec_decimal(n as nat),
    decreases n,
{
    if n < 10 {
        push_digit(s, n);
    } else {
        append_decimal(s, n / 10);
        push_digit(s, n % 10);
        assert(final(s)@ =~= old(s)@ + spec_decimal(n as nat));
    }
}

/// Appends the number in decimal, with a `-` before a negative one.
fn append_signed_decimal(s: &mut String, n: i64)
    requires
        n > i64::MIN,
    ensures
        final(s)@ == old(s)@ + spec_signed_decimal(n as int),
{
    if n < 0 {
        proof {
            reveal_strlit("-");
        }
        s.append("-");
        append_decimal(s, (-n) as u64);
        assert(final(s)@ =~= old(s)@ + spec_signed_decimal(n as int));
    } else {
        append_decimal(s, n as u64);
    }
}

/// The maps of one level of a project, by their position.
pub struct Overmap {
    pub maps: KeyedMap<(u32, u32), MapGen>,
}

/// The identifier of the map at `(x, y)` on level `z` of a project.
pub open spec fn grid_map_id(name: Seq<char>, x: int, y: int, z: int) -> Seq<char> {
    name + seq!['_'] + spec_decimal(x as nat) + seq!['_'] + spec_decimal(y as nat) + seq!['_'] + spec_signed_decimal(z)
}

impl Overmap {
    /// The maps of a new project level. A size with a side of at most 24
    /// gives one map named after the project; a larger size gives a map for
    /// each 24 by 24 part, named `project_x_y_z`.
    pub fn new(size: MapSize, project_name: String, z: i32) -> (r: Overmap)
        ensures
            ({
                let (w, h) = size.spec_value();
                if w <= 24 || h <= 24 {
                    &&& r.maps.map().dom() == Set::empty().insert((0u32, 0u32))
                    &&& r.maps.map()[(0u32, 0u32)].id@ == project_name@
                } else {
                    &&& r.maps.map().dom() == Set::new(|p: (u32, u32)| p.0 < w / 24 && p.1 < h / 24)
                    &&& forall|p: (u32, u32)| #[trigger]
                        r.maps.map().contains_key(p) ==> r.maps.map()[p].id@ == grid_map_id(
                            project_name@,
                            p.0 as int,
                            p.1 as int,
                            z as int,
                        )
                }
            }),
    {
        let (w, h) = size.value();
        let mut maps: KeyedMap<(u32, u32), MapGen> = KeyedMap::new();
        if w <= 24 || h <= 24 {
            let mut map_data = MapGen::default();
            map_data.id = CDDAIdentifier(project_name);
            maps.insert((0, 0), map_data);
            assert(maps.map().dom() =~= Set::empty().insert((0u32, 0u32)));
            return Overmap { maps };
        }
        let rows = h / 24;
        let cols = w / 24;
        let mut y: u32 = 0;
        while y < rows
            invariant
                y <= rows,
                rows == h / 24,
                cols == w / 24,
                maps.map().dom() == Set::new(|p: (u32, u32)| p.0 < cols && p.1 < y),
                forall|p: (u32, u32)| #[trigger]
                    maps.map().contains_key(p) ==> maps.map()[p].id@ == grid_map_id(
                        project_name@,
                        p.0 as int,
                        p.1 as int,
                        z as int,
                    ),
            decreases rows - y,
        {
            let mut x: u32 = 0;
            while x < cols
                invariant
                    y < rows,
                    x <= cols,
                    rows == h / 24,
                    cols == w / 24,
                    maps.map().dom() == Set::new(|p: (u32, u32)| p.0 < cols && (p.1 < y || (p.1 == y && p.0 < x))),
                    forall|p: (u32, u32)| #[trigger]
                        maps.map().contains_key(p) ==> maps.map()[p].id@ == grid_map_id(
                            project_name@,
                            p.0 as int,
                            p.1 as int,
                            z as int,
                        ),
                decreases cols - x,
            {
                let mut id = project_name.clone();
                proof {
                    reveal_strlit("_");
                }
                id.append("_");
                append_decimal(&mut id, x as u64);
                id.append("_");
                append_decimal(&mut id, y as u64);
                id.append("_");
                append_signed_decimal(&mut id, z as i64);
                assert(id@ =~= grid_map_id(project_name@, x as int, y as int, z as int));
                let mut map_data = MapGen::default();
                map_data.id = CDDAIdentifier(id);
                maps.insert((x, y), map_data);
                x = x + 1;
                assert(maps.map().dom() =~= Set::new(
                    |p: (u32, u32)| p.0 < cols && (p.1 < y || (p.1 == y && p.0 < x)),
                ));
            }
            y = y + 1;
            assert(maps.map().dom() =~= Set::new(|p: (u32, u32)| p.0 < cols && p.1 < y));
        }
        Overmap { maps }
    }

    /// The position of a cell of a map in the whole level.
    pub fn map_to_global_cell_coords(map_coordinates: (u32, u32), cell_coordinates: (u32, u32), z: i32) -> (r: (
        i32,
        i32,
        i32,
    ))
        requires
            i32::MIN <= (cell_coordinates.0 as i32) + (map_coordinates.0 as i32) * 24 <= i32::MAX,
            i32::MIN <= (map_coordinates.0 as i32) * 24 <= i32::MAX,
            i32::MIN <= (cell_coordinates.1 as i32) + (map_coordinates.1 as i32) * 24 <= i32::MAX,
            i32::MIN <= (map_coordinates.1 as i32) * 24 <= i32::MAX,
        ensures
            r.0 == (cell_coordinates.0 as i32) + (map_coordinates.0 as i32) * 24,
            r.1 == (cell_coordinates.1 as i32) + (map_coordinates.1 as i32) * 24,
            r.2 == z,
    {
        (
            cell_coordinates.0 as i32 + map_coordinates.0 as i32 * 24,
            cell_coordinates.1 as i32 + map_coordinates.1 as i32 * 24,
            z,
        )
    }
}

impl MapDataCollection {
    /// The position of a cell of a map in the whole grid of maps.
    pub fn map_to_global_cell_coords(map_coordinates: (u32, u32), cell_coordinates: (u32, u32), z: i32) -> (r: (
        i32,
        i32,
        i32,
    ))
        requires
            cell_coordinates.0 + map_coordinates.0 * 24 <= u32::MAX,
            cell_coordinates.1 + map_coordinates.1 * 24 <= u32::MAX,
        ensures
            r.0 == (cell_coordinates.0 + map_coordinates.0 * 24) as u32 as i32,
            r.1 == (cell_coordinates.1 + map_coordinates.1 * 24) as u32 as i32,
            r.2 == z,
    {
        (
            (cell_coordinates.0 + map_coordinates.0 * 24) as i32,
            (cell_coordinates.1 + map_coordinates.1 * 24) as i32,
            z,
        )
    }
}

/// What the editor keeps of its projects: the projects opened lately and
/// those it can open, each by name with the text of its path, the project
/// that is open, and the tilesets found. (The program's configuration
/// stays with the program around the library.)
pub struct ProgramData {
    pub recent_projects: KeyedMap<String, String>,
    pub openable_projects: KeyedMap<String, String>,
    pub opened_project: Option<String>,
    pub available_tilesets: Option<Vec<String>>,
}

impl ProgramData {
    /// Opens a new project: it becomes the open project, and is kept as an
    /// openable and a recent project at `path`.
    pub fn create_and_open_project(&mut self, project_name: String, path: String)
        ensures
            final(self).opened_project matches Some(n) && n@ == project_name@,
            final(self).openable_projects.map() == old(self).openable_projects.map().insert(project_name@, path),
            final(self).recent_projects.map() == old(self).recent_projects.map().insert(project_name@, path),
            final(self).available_tilesets == old(self).available_tilesets,
    {
        self.opened_project = Some(project_name.clone());
        self.openable_projects.insert(project_name.clone(), path.clone());
        self.recent_projects.insert(project_name, path);
    }
}

} // verus!
