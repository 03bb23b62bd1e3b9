//! Brick types and small helpers shared by the rest of the crate.

use vstd::prelude::*;
use crate::brick::{round_up_even, BrickRecord, Direction, Rotation, MATERIAL_INDEX, OWNER_INDEX};
use crate::gamma::{
    is_linear_gamma, lemma_linear_gamma_darkens, lemma_linear_gamma_table, LINEAR_GAMMA,
};

verus! {

/// The kinds of brick that a surface can be built from.
#[derive(Debug, Copy, Clone, PartialEq, Eq, Hash, Structural)]
pub enum BrickType {
    Basic,
    Tile,
    Micro,
    Stud,
}

impl BrickType {
    /// The smallest vertical extent that a brick of this type may have.
    pub open spec fn spec_min_height(self) -> u32 {
        match self {
            BrickType::Basic => 2,
            BrickType::Tile => 2,
            BrickType::Micro => 2,
            BrickType::Stud => 5,
        }
    }

    /// The position of this type in the table of brick assets of a save.
    pub open spec fn spec_asset_index(self) -> u32 {
        match self {
            BrickType::Basic => 0,
            BrickType::Tile => 1,
            BrickType::Micro => 2,
            BrickType::Stud => 3,
        }
    }

    #[verifier::when_used_as_spec(spec_min_height)]
    pub fn min_height(self) -> (min: u32)
        ensures
            min == self.spec_min_height(),
    {
        match self {
            BrickType::Basic => 2,
            BrickType::Tile => 2,
            BrickType::Micro => 2,
            BrickType::Stud => 5,
        }
    }

    #[verifier::when_used_as_spec(spec_asset_index)]
    pub fn asset_index(self) -> (index: u32)
        ensures
            index == self.spec_asset_index(),
    {
        match self {
            BrickType::Basic => 0,
            BrickType::Tile => 1,
            BrickType::Micro => 2,
            BrickType::Stud => 3,
        }
    }
}

/// A name that is not the name of a brick type.
#[derive(Debug, Copy, Clone, PartialEq, Eq, Structural)]
pub struct UnrecognizedBrickType;

impl UnrecognizedBrickType {
    /// What to tell whoever gave the name.
    pub fn message(&self) -> (text: String)
        ensures
            text@ == "unrecognized brick type"@,
    {
        "unrecognized brick type".to_owned()
    }
}

/// The brick type of the given name, written in lower case.
pub open spec fn brick_type_named(name: Seq<char>) -> Option<BrickType> {
    if name == "basic"@ {
        Some(BrickType::Basic)
    } else if name == "tile"@ {
        Some(BrickType::Tile)
    } else if name == "micro"@ {
        Some(BrickType::Micro)
    } else if name == "stud"@ {
        Some(BrickType::Stud)
    } else {
        None
    }
}

/// What reading a name in lower case gives: its brick type, or the error
/// where it names none.
pub open spec fn brick_type_read(name: Seq<char>) -> Result<BrickType, UnrecognizedBrickType> {
    match brick_type_named(name) {
        Some(brick_type) => Ok(brick_type),
        None => Err(UnrecognizedBrickType),
    }
}

/// What `str::to_lowercase` makes of a text.
pub uninterp spec fn lowercase_of(text: Seq<char>) -> Seq<char>;

/// Calls `str::to_lowercase`, which maps every character to its lower case
/// by the tables of Unicode. The result is a function of the text alone; the
/// contract gives it a name and says no more of it.
#[verifier::external_body]
fn to_lowercase(text: &str) -> (lower: String)
    ensures
        lower@ == lowercase_of(text@),
{
    text.to_lowercase()
}

impl BrickType {
    /// Reads a brick type from its name in lower case.
    pub fn from_name(name: &str) -> (result: Result<BrickType, UnrecognizedBrickType>)
        ensures
            result == brick_type_read(name@),
    {
        let name = name.to_owned();
        if name == "basic".to_owned() {
            Ok(BrickType::Basic)
        } else if name == "tile".to_owned() {
            Ok(BrickType::Tile)
        } else if name == "micro".to_owned() {
            Ok(BrickType::Micro)
        } else if name == "stud".to_owned() {
            Ok(BrickType::Stud)
        } else {
            Err(UnrecognizedBrickType)
        }
    }

    /// Reads a brick type from its name, in whatever case it is written.
    pub fn from_str(s: &str) -> (result: Result<BrickType, UnrecognizedBrickType>)
        ensures
            result == brick_type_read(lowercase_of(s@)),
    {
        let lower = to_lowercase(s);
        BrickType::from_name(lower.as_str())
    }
}

impl core::str::FromStr for BrickType {
    type Err = UnrecognizedBrickType;

    fn from_str(s: &str) -> (result: Result<BrickType, UnrecognizedBrickType>)
        ensures
            result == brick_type_read(lowercase_of(s@)),
    {
        BrickType::from_str(s)
    }
}

/// The linear value of a gamma-encoded channel value.
pub open spec fn spec_linear_gamma(c: u8) -> u8 {
    LINEAR_GAMMA[c as int]
}

/// Turns a gamma-encoded channel value into a linear one.
pub fn to_linear_gamma(c: u8) -> (linear: u8)
    ensures
        linear == spec_linear_gamma(c),
        is_linear_gamma(c as int, linear as int),
        linear <= c,
{
    proof {
        lemma_linear_gamma_table(c as int);
        lemma_linear_gamma_darkens(c as int);
    }
    LINEAR_GAMMA[c as usize]
}

/// The linear colour of a gamma-encoded colour; the fourth channel stays.
pub open spec fn spec_linear_rgb(rgb: [u8; 4]) -> [u8; 4] {
    [spec_linear_gamma(rgb[0]), spec_linear_gamma(rgb[1]), spec_linear_gamma(rgb[2]), rgb[3]]
}

/// Turns a gamma-encoded colour into a linear one. Opacity is left as it is.
pub fn to_linear_rgb(rgb: [u8; 4]) -> (linear: [u8; 4])
    ensures
        linear == spec_linear_rgb(rgb),
        is_linear_gamma(rgb[0] as int, linear[0] as int),
        is_linear_gamma(rgb[1] as int, linear[1] as int),
        is_linear_gamma(rgb[2] as int, linear[2] as int),
        linear[3] == rgb[3],
{
    let linear = [
        to_linear_gamma(rgb[0]),
        to_linear_gamma(rgb[1]),
        to_linear_gamma(rgb[2]),
        rgb[3],
    ];
    assert(linear =~= spec_linear_rgb(rgb));
    linear
}

/// The type of the bricks that `ez_brick` makes: tiles on request, else
/// basic bricks.
pub open spec fn ez_brick_type(tile: bool) -> BrickType {
    if tile {
        BrickType::Tile
    } else {
        BrickType::Basic
    }
}

/// The vertical extent of the brick that `ez_brick` makes: the height,
/// raised to the minimum of the type and then to the next even number.
pub open spec fn ez_brick_extent(height: u32, tile: bool) -> int {
    let min = ez_brick_type(tile).spec_min_height();
    round_up_even(
        if height < min {
            min as int
        } else {
            height as int
        },
    )
}

/// The brick that `ez_brick` makes.
pub open spec fn spec_ez_brick(
    size: u32,
    position: (i32, i32, i32),
    height: u32,
    color: [u8; 4],
    tile: bool,
    collision: bool,
) -> BrickRecord {
    let extent = ez_brick_extent(height, tile);
    BrickRecord {
        position: (
            (position.0 * size * 2 + 5) as i32,
            (position.1 * size * 2 + 5) as i32,
            (position.2 - extent + 2) as i32,
        ),
        footprint: size,
        extent: extent as u32,
        color,
        brick_type: ez_brick_type(tile),
        collision,
        direction: Direction::ZPositive,
        rotation: Rotation::Deg0,
        visibility: true,
        material_index: MATERIAL_INDEX,
        owner_index: Some(OWNER_INDEX),
    }
}

/// Whether the two horizontal coordinates of the centre of the brick that
/// `ez_brick` makes fit in `i32`.
pub open spec fn ez_brick_place_fits(size: u32, position: (i32, i32, i32)) -> bool {
    &&& i32::MIN <= position.0 * size * 2 + 5 <= i32::MAX
    &&& i32::MIN <= position.1 * size * 2 + 5 <= i32::MAX
}

/// Whether the numbers of the brick that `ez_brick` makes fit their types:
/// the vertical extent in `u32`, the three coordinates of the centre in `i32`.
pub open spec fn ez_brick_fits(
    size: u32,
    position: (i32, i32, i32),
    height: u32,
    tile: bool,
) -> bool {
    let extent = ez_brick_extent(height, tile);
    &&& extent <= u32::MAX
    &&& ez_brick_place_fits(size, position)
    &&& i32::MIN <= position.2 - extent + 2 <= i32::MAX
}

/// Makes the brick of one cell of a lattice of cells `2 * size` wide: a basic
/// brick or a tile, `size` to each side, over the cell at
/// `(position.0, position.1)`, of the given colour, colliding as asked. The
/// vertical extent is the height, raised to the minimum of the type and then
/// to the next even number, and the upper face lies two above `position.2`.
/// The brick stands upright and unturned, can be seen, and has the first
/// material and the first owner of its save.
pub fn ez_brick(
    size: u32,
    position: (i32, i32, i32),
    height: u32,
    color: [u8; 4],
    tile: bool,
    collision: bool,
) -> (brick: BrickRecord)
    requires
        ez_brick_fits(size, position, height, tile),
    ensures
        brick == spec_ez_brick(size, position, height, color, tile, collision),
        brick.position.0 == position.0 * size * 2 + 5,
        brick.position.1 == position.1 * size * 2 + 5,
        brick.position.2 == position.2 - brick.extent + 2,
        brick.footprint == size,
        brick.extent == ez_brick_extent(height, tile),
        brick.extent % 2 == 0,
        brick.extent >= brick.brick_type.spec_min_height(),
        brick.extent >= height,
        brick.brick_type == ez_brick_type(tile),
        brick.color == color,
        brick.collision == collision,
        brick.is_plain(),
{
    let brick_type = if tile {
        BrickType::Tile
    } else {
        BrickType::Basic
    };
    let min = brick_type.min_height();
    let raised = if height < min {
        min
    } else {
        height
    };
    let extent = raised + raised % 2;
    let across = position.0 as i64 * size as i64;
    let along = position.1 as i64 * size as i64;
    let x = across * 2 + 5;
    let y = along * 2 + 5;
    let z = position.2 as i64 - extent as i64 + 2;
    BrickRecord {
        position: (x as i32, y as i32, z as i32),
        footprint: size,
        extent,
        color,
        brick_type,
        collision,
        direction: Direction::ZPositive,
        rotation: Rotation::Deg0,
        visibility: true,
        material_index: MATERIAL_INDEX,
        owner_index: Some(OWNER_INDEX),
    }
}

/// Whoever made a save or owns bricks in it.
#[derive(Debug, PartialEq, Eq)]
pub struct User {
    pub id: u128,
    pub name: String,
}

/// A user as plain mathematics.
pub struct UserModel {
    pub id: u128,
    pub name: Seq<char>,
}

impl View for User {
    type V = UserModel;

    open spec fn view(&self) -> UserModel {
        UserModel { id: self.id, name: self.name@ }
    }
}

/// All that a save holds but the time at which it is written.
#[derive(Debug, PartialEq, Eq)]
pub struct SaveData {
    pub map: String,
    pub author: User,
    pub description: String,
    pub mods: Vec<String>,
    /// The asset of each brick type, at the index of the type.
    pub brick_assets: Vec<String>,
    pub colors: Vec<[u8; 4]>,
    pub materials: Vec<String>,
    pub brick_owners: Vec<User>,
    pub bricks: Vec<BrickRecord>,
}

/// A save as plain mathematics.
pub struct SaveModel {
    pub map: Seq<char>,
    pub author: UserModel,
    pub description: Seq<char>,
    pub mods: Seq<Seq<char>>,
    pub brick_assets: Seq<Seq<char>>,
    pub colors: Seq<[u8; 4]>,
    pub materials: Seq<Seq<char>>,
    pub brick_owners: Seq<UserModel>,
    pub bricks: Seq<BrickRecord>,
}

/// The texts of a vector of strings.
pub open spec fn texts(strings: Seq<String>) -> Seq<Seq<char>> {
    Seq::new(strings.len(), |i: int| strings[i]@)
}

/// The users of a vector of users.
pub open spec fn users(owners: Seq<User>) -> Seq<UserModel> {
    Seq::new(owners.len(), |i: int| owners[i]@)
}

impl View for SaveData {
    type V = SaveModel;

    open spec fn view(&self) -> SaveModel {
        SaveModel {
            map: self.map@,
            author: self.author@,
            description: self.description@,
            mods: texts(self.mods@),
            brick_assets: texts(self.brick_assets@),
            colors: self.colors@,
            materials: texts(self.materials@),
            brick_owners: users(self.brick_owners@),
            bricks: self.bricks@,
        }
    }
}

/// The owner of a save whose owner was given by no identifier, or by a text
/// that is none.
pub const DEFAULT_OWNER_ID: u128 = 0xa1b16aca_9627_4a16_a160_67fa9adbb7b6;

/// The name of the asset of a brick type.
pub open spec fn asset_name(brick_type: BrickType) -> Seq<char> {
    match brick_type {
        BrickType::Basic => "PB_DefaultBrick"@,
        BrickType::Tile => "PB_DefaultTile"@,
        BrickType::Micro => "PB_DefaultMicroBrick"@,
        BrickType::Stud => "PB_DefaultStudded"@,
    }
}

/// The identifier that a text was read as, or the default where it was read
/// as none.
pub open spec fn spec_owner_id(parsed: Option<u128>) -> u128 {
    match parsed {
        Some(id) => id,
        None => DEFAULT_OWNER_ID,
    }
}

/// The save of the given bricks, made and owned by the given user.
pub open spec fn save_for(bricks: Seq<BrickRecord>, id: u128, name: Seq<char>) -> SaveModel {
    SaveModel {
        map: "Plate"@,
        author: UserModel { id, name },
        description: "Save generated from heightmap file"@,
        mods: Seq::empty(),
        brick_assets: seq![
            asset_name(BrickType::Basic),
            asset_name(BrickType::Tile),
            asset_name(BrickType::Micro),
            asset_name(BrickType::Stud),
        ],
        colors: Seq::empty(),
        materials: seq!["BMC_Plastic"@],
        brick_owners: seq![UserModel { id, name }],
        bricks,
    }
}

/// In every save, the asset of a brick type stands at the index of the type.
pub proof fn lemma_asset_at_index(
    bricks: Seq<BrickRecord>,
    id: u128,
    name: Seq<char>,
    brick_type: BrickType,
)
    ensures
        0 <= brick_type.spec_asset_index() < save_for(bricks, id, name).brick_assets.len(),
        save_for(bricks, id, name).brick_assets[brick_type.spec_asset_index() as int]
            == asset_name(brick_type),
{
}

/// What `Uuid::parse_str` reads a text as: the 128 bits of the identifier,
/// first byte foremost, or nothing where the text is no identifier.
pub uninterp spec fn uuid_of_text(text: Seq<char>) -> Option<u128>;

#[verifier::external_type_specification]
#[verifier::external_body]
pub struct ExUuidError(brs::uuid::Error);

/// Calls `Uuid::parse_str` of the crate `uuid`, as `brs` hands it on, and
/// takes the bits of what it read with `Uuid::as_u128`. The function reads
/// the text alone and does not panic; the contract gives what it reads a
/// name and says no more of it.
#[verifier::external_body]
fn parse_uuid(text: &str) -> (parsed: Result<u128, brs::uuid::Error>)
    ensures
        parsed is Ok <==> uuid_of_text(text@) is Some,
        parsed matches Ok(id) ==> uuid_of_text(text@) == Some(id),
{
    match brs::uuid::Uuid::parse_str(text) {
        Ok(uuid) => Ok(uuid.as_u128()),
        Err(error) => Err(error),
    }
}

/// Reads an identifier; a text that is none gives nothing.
pub fn read_owner_id(text: &str) -> (parsed: Option<u128>)
    ensures
        parsed == uuid_of_text(text@),
{
    match parse_uuid(text) {
        Ok(id) => Some(id),
        Err(_) => None,
    }
}

/// The identifier that was read, or the default where none was.
pub fn owner_id_or_default(parsed: Option<u128>) -> (id: u128)
    ensures
        id == spec_owner_id(parsed),
{
    match parsed {
        Some(id) => id,
        None => DEFAULT_OWNER_ID,
    }
}

/// Makes the save of the given bricks, made and owned by the given user.
pub fn save_with_owner(bricks: Vec<BrickRecord>, id: u128, owner_name: String) -> (save: SaveData)
    ensures
        save@ == save_for(bricks@, id, owner_name@),
{
    let author = User { id, name: owner_name.clone() };
    let mut brick_owners: Vec<User> = Vec::new();
    brick_owners.push(User { id, name: owner_name });
    let mut brick_assets: Vec<String> = Vec::new();
    brick_assets.push("PB_DefaultBrick".to_owned());
    brick_assets.push("PB_DefaultTile".to_owned());
    brick_assets.push("PB_DefaultMicroBrick".to_owned());
    brick_assets.push("PB_DefaultStudded".to_owned());
    let mut materials: Vec<String> = Vec::new();
    materials.push("BMC_Plastic".to_owned());
    let save = SaveData {
        map: "Plate".to_owned(),
        author,
        description: "Save generated from heightmap file".to_owned(),
        mods: Vec::new(),
        brick_assets,
        colors: Vec::new(),
        materials,
        brick_owners,
        bricks,
    };
    proof {
        let model = save_for(save.bricks@, id, save.author.name@);
        assert(save@.mods =~= model.mods);
        assert(save@.brick_assets =~= model.brick_assets);
        assert(save@.colors =~= model.colors);
        assert(save@.materials =~= model.materials);
        assert(save@.brick_owners =~= model.brick_owners);
    }
    save
}

/// Makes the save of the given bricks. The owner's identifier is read from
/// `owner_id`; where that text is no identifier, the default owner stands in.
pub fn bricks_to_save(bricks: Vec<BrickRecord>, owner_id: String, owner_name: String) -> (save:
    SaveData)
    ensures
        save@ == save_for(bricks@, spec_owner_id(uuid_of_text(owner_id@)), owner_name@),
{
    let id = owner_id_or_default(read_owner_id(owner_id.as_str()));
    save_with_owner(bricks, id, owner_name)
}

} // verus!
