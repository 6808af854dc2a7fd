//! Missions: what a vehicle is to fly, the items that are uploaded to it, and the hashes
//! by which missions are recognised.
//!
//! Lengths, altitudes and parameters are IEEE 754 numbers that this module stores and
//! hashes but never computes with; they are held as their bits.
use vstd::prelude::*;
use vstd::string::*;
use vstd::utf8::*;
use sha2::Digest;
use crate::mavlink_client::{
    command_value, mission_count, AnyResult, Command, EnumValue, EnumValueView,
};
use crate::text;

verus! {

/// One leg of a mission, relative to where the vehicle stands.
#[derive(Debug, Clone, Copy, PartialEq, Eq)]
pub enum MissionSpec {
    Takeoff { rel_alt_m: u32 },
    Waypoint { north_m: u64, east_m: u64, rel_alt_m: u32, acceptance_radius_m: u32 },
    Land { north_m: u64, east_m: u64 },
}

/// The bits of the single-precision number zero.
pub const ZERO_BITS: u32 = 0;

/// The bits of the single-precision "not a number" that leaves a parameter unset.
pub const UNSET_BITS: u32 = 0x7fc0_0000;

/// A mission item as it is uploaded. `x` and `y` are latitude and longitude in
/// ten-millionths of a degree.
#[derive(Debug, Clone, PartialEq, Eq)]
pub struct MissionItem {
    pub param1: u32,
    pub param2: u32,
    pub param3: u32,
    pub param4: u32,
    pub x: i32,
    pub y: i32,
    pub z: u32,
    pub seq: u16,
    pub command: EnumValue,
    pub target_system: u8,
    pub target_component: u8,
    pub frame: EnumValue,
    pub current: u8,
    pub autocontinue: u8,
}

/// A mission item over texts.
pub struct MissionItemView {
    pub param1: u32,
    pub param2: u32,
    pub param3: u32,
    pub param4: u32,
    pub x: i32,
    pub y: i32,
    pub z: u32,
    pub seq: u16,
    pub command: EnumValueView,
    pub target_system: u8,
    pub target_component: u8,
    pub frame: EnumValueView,
    pub current: u8,
    pub autocontinue: u8,
}

impl View for MissionItem {
    type V = MissionItemView;

    open spec fn view(&self) -> MissionItemView {
        MissionItemView {
            param1: self.param1,
            param2: self.param2,
            param3: self.param3,
            param4: self.param4,
            x: self.x,
            y: self.y,
            z: self.z,
            seq: self.seq,
            command: self.command@,
            target_system: self.target_system,
            target_component: self.target_component,
            frame: self.frame@,
            current: self.current,
            autocontinue: self.autocontinue,
        }
    }
}

/// The items over texts, in order.
pub open spec fn item_views(items: Seq<MissionItem>) -> Seq<MissionItemView> {
    items.map_values(|item: MissionItem| item@)
}

/// The frame of all items: global coordinates with altitudes relative to home.
pub open spec fn relative_alt_frame() -> EnumValueView {
    EnumValueView { code: 3, name: "MAV_FRAME_GLOBAL_RELATIVE_ALT"@ }
}

/// `mavlink::common::MavFrame`: the discriminant of `MAV_FRAME_GLOBAL_RELATIVE_ALT`, and
/// its `Debug` text, which is the variant's name.
#[verifier::external_body]
fn relative_alt_frame_value() -> (r: EnumValue)
    ensures
        r@ == relative_alt_frame(),
{
    let value = mavlink::common::MavFrame::MAV_FRAME_GLOBAL_RELATIVE_ALT;
    EnumValue { code: value as u32, name: format!("{:?}", value) }
}

/// Where a leg lies: a takeoff where the vehicle stands, at `start`, and every other leg
/// where its offset leads to, at `offset_position`.
pub open spec fn leg_position(
    start: (i32, i32),
    offset_position: (i32, i32),
    leg: MissionSpec,
) -> (i32, i32) {
    if leg is Takeoff {
        start
    } else {
        offset_position
    }
}

/// The item for leg number `index` of a mission that is flown from `start`; the leg's
/// offset leads to `offset_position`, if it has one.
pub open spec fn item_for(
    target_system: u8,
    target_component: u8,
    index: int,
    start: (i32, i32),
    offset_position: (i32, i32),
    leg: MissionSpec,
) -> MissionItemView {
    let seq = (index % 65536) as u16;
    let (command, radius, altitude) = match leg {
        MissionSpec::Takeoff { rel_alt_m } => (Command::NavTakeoff, ZERO_BITS, rel_alt_m),
        MissionSpec::Waypoint { north_m, east_m, rel_alt_m, acceptance_radius_m } => (
            Command::NavWaypoint,
            acceptance_radius_m,
            rel_alt_m,
        ),
        MissionSpec::Land { north_m, east_m } => (Command::NavLand, ZERO_BITS, ZERO_BITS),
    };
    let position = leg_position(start, offset_position, leg);
    MissionItemView {
        param1: ZERO_BITS,
        param2: radius,
        param3: ZERO_BITS,
        param4: UNSET_BITS,
        x: position.0,
        y: position.1,
        z: altitude,
        seq,
        command: command.value(),
        target_system,
        target_component,
        frame: relative_alt_frame(),
        current: if seq == 0 {
            1
        } else {
            0
        },
        autocontinue: 1,
    }
}

/// The items of a mission that is flown from `start`; the offset of each leg leads to its
/// place in `positions`.
pub open spec fn items_for(
    target_system: u8,
    target_component: u8,
    start: (i32, i32),
    positions: Seq<(i32, i32)>,
    mission: Seq<MissionSpec>,
) -> Seq<MissionItemView> {
    Seq::new(
        mission.len(),
        |i: int|
            item_for(target_system, target_component, i, start, positions[i], mission[i]),
    )
}

/// Builds the items of a mission that is flown from the given place, in ten-millionths of
/// a degree. `positions` says for each leg where its offset leads to; a takeoff has no
/// offset, and what stands there for it is not used.
pub fn build_relative_mission_items(
    target_system: u8,
    target_component: u8,
    start_lat_1e7: i32,
    start_lon_1e7: i32,
    positions: &Vec<(i32, i32)>,
    mission: &Vec<MissionSpec>,
) -> (r: AnyResult<Vec<MissionItem>>)
    requires
        positions.len() == mission.len(),
    ensures
        r is Ok,
        item_views(r->Ok_0@) == items_for(
            target_system,
            target_component,
            (start_lat_1e7, start_lon_1e7),
            positions@,
            mission@,
        ),
{
    let mut out: Vec<MissionItem> = Vec::new();
    let mut i: usize = 0;
    while i < mission.len()
        invariant
            i <= mission.len(),
            positions.len() == mission.len(),
            out@.len() == i,
            forall|k: int|
                0 <= k < i ==> (#[trigger] out@[k])@ == item_for(
                    target_system,
                    target_component,
                    k,
                    (start_lat_1e7, start_lon_1e7),
                    positions@[k],
                    mission@[k],
                ),
        decreases mission.len() - i,
    {
        let seq: u16 = mission_count(i);
        let (command, radius, altitude): (Command, u32, u32) = match &mission[i] {
            MissionSpec::Takeoff { rel_alt_m } => (Command::NavTakeoff, ZERO_BITS, *rel_alt_m),
            MissionSpec::Waypoint { rel_alt_m, acceptance_radius_m, .. } => (
                Command::NavWaypoint,
                *acceptance_radius_m,
                *rel_alt_m,
            ),
            MissionSpec::Land { .. } => (Command::NavLand, ZERO_BITS, ZERO_BITS),
        };
        let position: (i32, i32) = match &mission[i] {
            MissionSpec::Takeoff { .. } => (start_lat_1e7, start_lon_1e7),
            _ => positions[i],
        };
        out.push(
            MissionItem {
                param1: ZERO_BITS,
                param2: radius,
                param3: ZERO_BITS,
                param4: UNSET_BITS,
                x: position.0,
                y: position.1,
                z: altitude,
                seq,
                command: command_value(command),
                target_system,
                target_component,
                frame: relative_alt_frame_value(),
                current: if seq == 0 {
                    1
                } else {
                    0
                },
                autocontinue: 1,
            },
        );
        i = i + 1;
    }
    assert(item_views(out@) =~= items_for(
        target_system,
        target_component,
        (start_lat_1e7, start_lon_1e7),
        positions@,
        mission@,
    ));
    Ok(out)
}

/// The low `width` bytes of `v`, least significant first.
pub open spec fn le_bytes(v: nat, width: nat) -> Seq<u8>
    decreases width,
{
    if width == 0 {
        Seq::<u8>::empty()
    } else {
        seq![(v % 256) as u8] + le_bytes(v / 256, (width - 1) as nat)
    }
}

/// The two's complement of `v` in 32 bits.
pub open spec fn twos_complement(v: i32) -> nat {
    if v < 0 {
        (v + 0x1_0000_0000) as nat
    } else {
        v as nat
    }
}

/// The bytes by which an item is hashed.
pub open spec fn item_bytes(item: MissionItemView) -> Seq<u8> {
    le_bytes(item.param1 as nat, 4) + le_bytes(item.param2 as nat, 4) + le_bytes(
        item.param3 as nat,
        4,
    ) + le_bytes(item.param4 as nat, 4) + le_bytes(twos_complement(item.x), 4) + le_bytes(
        twos_complement(item.y),
        4,
    ) + le_bytes(item.z as nat, 4) + le_bytes(item.seq as nat, 2) + encode_utf8(item.command.name)
        + seq![item.target_system] + seq![item.target_component] + encode_utf8(item.frame.name)
        + seq![item.current] + seq![item.autocontinue]
}

/// The bytes by which a list of items is hashed.
pub open spec fn items_bytes(items: Seq<MissionItemView>) -> Seq<u8>
    decreases items.len(),
{
    if items.len() == 0 {
        Seq::<u8>::empty()
    } else {
        items_bytes(items.drop_last()) + item_bytes(items.last())
    }
}

/// Appends the low `width` bytes of `v`, least significant first.
fn push_le(out: &mut Vec<u8>, v: u32, width: u32)
    ensures
        final(out)@ == old(out)@ + le_bytes(v as nat, width as nat),
    decreases width,
{
    if width > 0 {
        let ghost before = out@;
        out.push((v % 256) as u8);
        push_le(out, v / 256, width - 1);
        assert(out@ =~= before + le_bytes(v as nat, width as nat));
    } else {
        assert(out@ =~= out@ + le_bytes(v as nat, 0));
    }
}

/// Appends all of `bytes`.
fn push_bytes(out: &mut Vec<u8>, bytes: &[u8])
    ensures
        final(out)@ == old(out)@ + bytes@,
{
    let ghost before = out@;
    let mut i: usize = 0;
    while i < bytes.len()
        invariant
            i <= bytes@.len(),
            out@ == before + bytes@.take(i as int),
        decreases bytes.len() - i,
    {
        out.push(bytes[i]);
        assert(bytes@.take(i + 1) == bytes@.take(i as int).push(bytes@[i as int]));
        i = i + 1;
    }
    assert(bytes@.take(bytes@.len() as int) == bytes@);
}

/// The two's complement of `v` in 32 bits.
fn bits_of(v: i32) -> (r: u32)
    ensures
        r == twos_complement(v),
{
    if v < 0 {
        (v as i64 + 0x1_0000_0000) as u32
    } else {
        v as u32
    }
}

/// Appends the bytes by which `item` is hashed.
fn push_item(out: &mut Vec<u8>, item: &MissionItem)
    ensures
        final(out)@ == old(out)@ + item_bytes(item@),
{
    let ghost before = out@;
    push_le(out, item.param1, 4);
    push_le(out, item.param2, 4);
    push_le(out, item.param3, 4);
    push_le(out, item.param4, 4);
    push_le(out, bits_of(item.x), 4);
    push_le(out, bits_of(item.y), 4);
    push_le(out, item.z, 4);
    push_le(out, item.seq as u32, 2);
    push_bytes(out, item.command.name.as_str().as_bytes());
    out.push(item.target_system);
    out.push(item.target_component);
    push_bytes(out, item.frame.name.as_str().as_bytes());
    out.push(item.current);
    out.push(item.autocontinue);
    assert(out@ =~= before + item_bytes(item@));
}

/// The SHA-256 digest of `data`.
pub uninterp spec fn sha256(data: Seq<u8>) -> Seq<u8>;

/// `sha2::Sha256`: the digest of `data`, fed to a fresh hasher. The digest depends on
/// the data alone; its 32 bytes are not described further.
#[verifier::external_body]
pub(crate) fn sha256_digest(data: &[u8]) -> (r: [u8; 32])
    ensures
        r@ == sha256(data@),
{
    let mut hasher = sha2::Sha256::new();
    hasher.update(data);
    hasher.finalize().into()
}

/// The form in which a digest is shown and compared.
pub open spec fn digest_text(digest: Seq<u8>) -> Seq<char> {
    "Array(["@ + text::joined(digest.map_values(|b: u8| text::decimal(b as nat)), ", "@) + "])"@
}

/// The `Debug` form of `sha2::digest::Output`, the array in which a hasher returns its
/// digest: the word `Array`, and in brackets the list of the bytes in decimal.
#[verifier::external_body]
fn show_digest(digest: [u8; 32]) -> (r: String)
    ensures
        r@ == digest_text(digest@),
{
    format!("{:?}", sha2::digest::Output::<sha2::Sha256>::from(digest))
}

/// The form in which a digest is shown and compared.
pub fn digest_label(digest: [u8; 32]) -> (r: String)
    ensures
        r@ == digest_text(digest@),
{
    show_digest(digest)
}

/// The hash of some bytes, as text.
pub fn hex_sha256(bytes: &[u8]) -> (r: String)
    ensures
        r@ == digest_text(sha256(bytes@)),
{
    digest_label(sha256_digest(bytes))
}

/// The hash by which a configured mission is recognised, from its JSON encoding.
pub fn hash_mission_specs(encoded: &Vec<u8>) -> (r: String)
    ensures
        r@ == digest_text(sha256(encoded@)),
{
    hex_sha256(encoded.as_slice())
}

/// The bytes by which a list of items is hashed.
pub fn mission_item_bytes(mission: &Vec<MissionItem>) -> (r: Vec<u8>)
    ensures
        r@ == items_bytes(item_views(mission@)),
{
    let mut bytes: Vec<u8> = Vec::new();
    let ghost views = item_views(mission@);
    let mut i: usize = 0;
    while i < mission.len()
        invariant
            i <= mission@.len(),
            views == item_views(mission@),
            bytes@ == items_bytes(views.take(i as int)),
        decreases mission.len() - i,
    {
        push_item(&mut bytes, &mission[i]);
        proof {
            assert(views.take(i + 1).drop_last() == views.take(i as int));
            assert(views.take(i + 1).last() == mission@[i as int]@);
        }
        i = i + 1;
    }
    assert(views.take(views.len() as int) == views);
    bytes
}

/// The hash by which an uploaded mission is recognised.
pub fn hash_mission_items(mission: &Vec<MissionItem>) -> (r: String)
    ensures
        r@ == digest_text(sha256(items_bytes(item_views(mission@)))),
{
    hex_sha256(mission_item_bytes(mission).as_slice())
}

/// The items of a mission are numbered from zero without gaps, and the first one alone
/// is current, as long as the number of legs fits the protocol's sixteen-bit counter.
pub proof fn law_items_are_numbered(
    target_system: u8,
    target_component: u8,
    index: int,
    start: (i32, i32),
    offset_position: (i32, i32),
    leg: MissionSpec,
)
    requires
        0 <= index < 65536,
    ensures
        ({
            let item = item_for(
                target_system,
                target_component,
                index,
                start,
                offset_position,
                leg,
            );
            &&& item.seq == index
            &&& item.current == 1 <==> index == 0
            &&& item.current == 0 <==> index != 0
            &&& item.target_system == target_system
            &&& item.target_component == target_component
        }),
{
}

/// An item depends on its own leg alone, and where that lies: missions for the same vehicle
/// and start whose first `n` legs agree, and lie at the same places, have the same first `n`
/// items.
pub proof fn law_shared_legs_have_shared_items(
    target_system: u8,
    target_component: u8,
    start: (i32, i32),
    positions1: Seq<(i32, i32)>,
    mission1: Seq<MissionSpec>,
    positions2: Seq<(i32, i32)>,
    mission2: Seq<MissionSpec>,
    n: int,
)
    requires
        0 <= n <= mission1.len(),
        n <= mission2.len(),
        forall|i: int|
            0 <= i < n ==> {
                &&& #[trigger] mission1[i] == mission2[i]
                &&& leg_position(start, positions1[i], mission1[i]) == leg_position(
                    start,
                    positions2[i],
                    mission2[i],
                )
            },
    ensures
        items_for(target_system, target_component, start, positions1, mission1).take(n)
            == items_for(target_system, target_component, start, positions2, mission2).take(n),
{
    let items1 = items_for(target_system, target_component, start, positions1, mission1);
    let items2 = items_for(target_system, target_component, start, positions2, mission2);
    assert forall|i: int| 0 <= i < n implies items1[i] == items2[i] by {
        assert(mission1[i] == mission2[i]);
    }
    assert(items1.take(n) =~= items2.take(n));
}

/// Lengthening a mission adds items behind those it had, and changes none of them.
pub proof fn law_more_legs_add_items(
    target_system: u8,
    target_component: u8,
    start: (i32, i32),
    positions: Seq<(i32, i32)>,
    mission: Seq<MissionSpec>,
    more_positions: Seq<(i32, i32)>,
    more: Seq<MissionSpec>,
)
    requires
        positions.len() == mission.len(),
        more_positions.len() == more.len(),
    ensures
        ({
            let items = items_for(target_system, target_component, start, positions, mission);
            let longer = items_for(
                target_system,
                target_component,
                start,
                positions + more_positions,
                mission + more,
            );
            &&& longer.len() == mission.len() + more.len()
            &&& longer.take(mission.len() as int) == items
        }),
{
    let n = mission.len() as int;
    let items = items_for(target_system, target_component, start, positions, mission);
    assert forall|i: int| 0 <= i < n implies {
        &&& #[trigger] mission[i] == (mission + more)[i]
        &&& leg_position(start, positions[i], mission[i]) == leg_position(
            start,
            (positions + more_positions)[i],
            (mission + more)[i],
        )
    } by {
        assert(positions[i] == (positions + more_positions)[i]);
    }
    law_shared_legs_have_shared_items(
        target_system,
        target_component,
        start,
        positions,
        mission,
        positions + more_positions,
        mission + more,
        n,
    );
    assert(items.take(n) =~= items);
}

/// A vehicle takes off where it stands, and every other leg lies where its offset leads to.
pub proof fn law_takeoff_is_at_the_start(
    target_system: u8,
    target_component: u8,
    index: int,
    start: (i32, i32),
    offset_position: (i32, i32),
    leg: MissionSpec,
)
    ensures
        ({
            let item = item_for(
                target_system,
                target_component,
                index,
                start,
                offset_position,
                leg,
            );
            &&& leg is Takeoff ==> (item.x, item.y) == start
            &&& !(leg is Takeoff) ==> (item.x, item.y) == offset_position
        }),
{
}

} // verus!
