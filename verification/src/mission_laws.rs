//! What mission items carry, and how they are laid out when they are hashed.
use vstd::prelude::*;
use vstd::utf8::*;
use crate::mavlink_client::Command;
use crate::mission;
use crate::mission::{MissionItem, MissionItemView, MissionSpec, UNSET_BITS, ZERO_BITS};
use crate::reports;
use crate::signing;
use crate::text;

verus! {

/// Every item carries the numbers of its own leg. A takeoff or waypoint has the leg's
/// altitude, and a landing altitude zero; only a waypoint has an acceptance radius, which is
/// the leg's own; and the command is the one for the leg's kind.
pub proof fn law_items_carry_the_numbers_of_their_legs(
    target_system: u8,
    target_component: u8,
    index: int,
    start: (i32, i32),
    offset_position: (i32, i32),
    leg: MissionSpec,
)
    ensures
        ({
            let item = mission::item_for(
                target_system,
                target_component,
                index,
                start,
                offset_position,
                leg,
            );
            &&& leg matches MissionSpec::Takeoff { rel_alt_m } ==> item.z == rel_alt_m
                && item.param2 == ZERO_BITS && item.command == Command::NavTakeoff.value()
                && (item.x, item.y) == start
            &&& leg matches MissionSpec::Waypoint {
                north_m,
                east_m,
                rel_alt_m,
                acceptance_radius_m,
            } ==> item.z == rel_alt_m && item.param2 == acceptance_radius_m && item.command
                == Command::NavWaypoint.value() && (item.x, item.y) == offset_position
            &&& leg matches MissionSpec::Land { north_m, east_m } ==> item.z == ZERO_BITS
                && item.param2 == ZERO_BITS && item.command == Command::NavLand.value() && (
            item.x,
            item.y,
            ) == offset_position
            &&& item.param1 == ZERO_BITS
            &&& item.param3 == ZERO_BITS
            &&& item.param4 == UNSET_BITS
            &&& item.target_system == target_system
            &&& item.target_component == target_component
            &&& item.frame == mission::relative_alt_frame()
            &&& item.autocontinue == 1
            &&& item.seq == index % 65536
            &&& item.current == 1 <==> index % 65536 == 0
            &&& item.current == 0 || item.current == 1
        }),
{
}

/// Two legs that differ in what they ask for become items that differ: altitudes, radii and
/// kinds are never lost.
pub proof fn law_different_legs_become_different_items(
    target_system: u8,
    target_component: u8,
    index: int,
    start: (i32, i32),
    offset_position: (i32, i32),
    a: MissionSpec,
    b: MissionSpec,
)
    requires
        mission::item_for(target_system, target_component, index, start, offset_position, a)
            == mission::item_for(target_system, target_component, index, start, offset_position, b),
    ensures
        a is Takeoff <==> b is Takeoff,
        a is Waypoint <==> b is Waypoint,
        a is Land <==> b is Land,
        a is Takeoff ==> a == b,
        a is Waypoint ==> a->Waypoint_rel_alt_m == b->Waypoint_rel_alt_m && a->acceptance_radius_m
            == b->acceptance_radius_m,
{
}

/// A mission has one item for each leg, in order: each is that of its own leg, index and
/// position.
pub proof fn law_every_leg_has_its_item(
    target_system: u8,
    target_component: u8,
    start: (i32, i32),
    positions: Seq<(i32, i32)>,
    legs: Seq<MissionSpec>,
    i: int,
)
    requires
        0 <= i < legs.len(),
    ensures
        ({
            let items = mission::items_for(target_system, target_component, start, positions, legs);
            &&& items.len() == legs.len()
            &&& items[i] == mission::item_for(
                target_system,
                target_component,
                i,
                start,
                positions[i],
                legs[i],
            )
            &&& legs[i] matches MissionSpec::Takeoff { rel_alt_m } ==> items[i].z == rel_alt_m
            &&& items[i].seq == i % 65536
        }),
{
}

/// Two to the power of eight times `k`.
pub open spec fn byte_power(k: nat) -> nat
    decreases k,
{
    if k == 0 {
        1
    } else {
        256 * byte_power((k - 1) as nat)
    }
}

/// The number that bytes stand for, the least significant first.
pub open spec fn number_in_bytes(bytes: Seq<u8>) -> nat
    decreases bytes.len(),
{
    if bytes.len() == 0 {
        0
    } else {
        bytes[0] as nat + 256 * number_in_bytes(bytes.drop_first())
    }
}

/// A number can be read back from its bytes, least significant first.
pub proof fn law_numbers_read_back_from_bytes(v: nat, width: nat)
    requires
        v < byte_power(width),
    ensures
        mission::le_bytes(v, width).len() == width,
        number_in_bytes(mission::le_bytes(v, width)) == v,
    decreases width,
{
    if width > 0 {
        let less = (width - 1) as nat;
        law_numbers_read_back_from_bytes(v / 256, less);
        let bytes = mission::le_bytes(v, width);
        assert(bytes.drop_first() =~= mission::le_bytes(v / 256, less));
        assert(bytes[0] == (v % 256) as u8);
    }
}

/// A signed number is hashed as its two's complement: as itself, or as itself and two to the
/// power of 32.
pub proof fn law_signed_numbers(v: i32)
    ensures
        v >= 0 ==> mission::twos_complement(v) == v,
        v < 0 ==> mission::twos_complement(v) == v + 0x1_0000_0000,
        mission::twos_complement(v) < 0x1_0000_0000,
{
}

/// The bytes from `from`, `count` of them.
pub open spec fn part(bytes: Seq<u8>, from: int, count: int) -> Seq<u8> {
    bytes.subrange(from, from + count)
}

proof fn lemma_widths(item: MissionItemView)
    ensures
        mission::le_bytes(item.param1 as nat, 4).len() == 4,
        mission::le_bytes(item.param2 as nat, 4).len() == 4,
        mission::le_bytes(item.param3 as nat, 4).len() == 4,
        mission::le_bytes(item.param4 as nat, 4).len() == 4,
        mission::le_bytes(mission::twos_complement(item.x), 4).len() == 4,
        mission::le_bytes(mission::twos_complement(item.y), 4).len() == 4,
        mission::le_bytes(item.z as nat, 4).len() == 4,
        mission::le_bytes(item.seq as nat, 2).len() == 2,
{
    assert(byte_power(4) == 0x1_0000_0000 && byte_power(2) == 0x1_0000) by {
        reveal_with_fuel(byte_power, 5);
    }
    law_numbers_read_back_from_bytes(item.param1 as nat, 4);
    law_numbers_read_back_from_bytes(item.param2 as nat, 4);
    law_numbers_read_back_from_bytes(item.param3 as nat, 4);
    law_numbers_read_back_from_bytes(item.param4 as nat, 4);
    law_numbers_read_back_from_bytes(mission::twos_complement(item.x), 4);
    law_numbers_read_back_from_bytes(mission::twos_complement(item.y), 4);
    law_numbers_read_back_from_bytes(item.z as nat, 4);
    law_numbers_read_back_from_bytes(item.seq as nat, 2);
}

/// Where each field of an item stands among the bytes by which it is hashed: the parameters,
/// the coordinates, the altitude and the number have fixed places, and behind them come the
/// name of the command, the targets, the name of the frame, and the two flags.
pub proof fn law_item_layout(item: MissionItemView)
    ensures
        ({
            let bytes = mission::item_bytes(item);
            let command = encode_utf8(item.command.name);
            let frame = encode_utf8(item.frame.name);
            let c: int = 30 + command.len() as int;
            let f: int = c + 2 + frame.len() as int;
            &&& bytes.len() == f + 2
            &&& part(bytes, 0, 4) == mission::le_bytes(item.param1 as nat, 4)
            &&& part(bytes, 4, 4) == mission::le_bytes(item.param2 as nat, 4)
            &&& part(bytes, 8, 4) == mission::le_bytes(item.param3 as nat, 4)
            &&& part(bytes, 12, 4) == mission::le_bytes(item.param4 as nat, 4)
            &&& part(bytes, 16, 4) == mission::le_bytes(mission::twos_complement(item.x), 4)
            &&& part(bytes, 20, 4) == mission::le_bytes(mission::twos_complement(item.y), 4)
            &&& part(bytes, 24, 4) == mission::le_bytes(item.z as nat, 4)
            &&& part(bytes, 28, 2) == mission::le_bytes(item.seq as nat, 2)
            &&& part(bytes, 30, command.len() as int) == command
            &&& bytes[c] == item.target_system
            &&& bytes[c + 1] == item.target_component
            &&& part(bytes, c + 2, frame.len() as int) == frame
            &&& bytes[f] == item.current
            &&& bytes[f + 1] == item.autocontinue
        }),
{
    lemma_widths(item);
    let bytes = mission::item_bytes(item);
    let command = encode_utf8(item.command.name);
    let frame = encode_utf8(item.frame.name);
    let c: int = 30 + command.len() as int;
    assert(part(bytes, 0, 4) =~= mission::le_bytes(item.param1 as nat, 4));
    assert(part(bytes, 4, 4) =~= mission::le_bytes(item.param2 as nat, 4));
    assert(part(bytes, 8, 4) =~= mission::le_bytes(item.param3 as nat, 4));
    assert(part(bytes, 12, 4) =~= mission::le_bytes(item.param4 as nat, 4));
    assert(part(bytes, 16, 4) =~= mission::le_bytes(mission::twos_complement(item.x), 4));
    assert(part(bytes, 20, 4) =~= mission::le_bytes(mission::twos_complement(item.y), 4));
    assert(part(bytes, 24, 4) =~= mission::le_bytes(item.z as nat, 4));
    assert(part(bytes, 28, 2) =~= mission::le_bytes(item.seq as nat, 2));
    assert(part(bytes, 30, command.len() as int) =~= command);
    assert(part(bytes, c + 2, frame.len() as int) =~= frame);
}

/// Missions are hashed item by item: nothing has no bytes, one item has its own, and one
/// mission behind another has the bytes of both.
pub proof fn law_missions_are_hashed_item_by_item(
    a: Seq<MissionItemView>,
    b: Seq<MissionItemView>,
)
    ensures
        a.len() == 0 ==> mission::items_bytes(a).len() == 0,
        a.len() == 1 ==> mission::items_bytes(a) == mission::item_bytes(a[0]),
        mission::items_bytes(a + b) == mission::items_bytes(a) + mission::items_bytes(b),
    decreases b.len(),
{
    if a.len() == 1 {
        assert(a.drop_last() =~= Seq::empty());
        assert(mission::items_bytes(a.drop_last()) =~= Seq::empty());
        assert(mission::items_bytes(a) =~= mission::item_bytes(a[0]));
    }
    if b.len() == 0 {
        assert(a + b =~= a);
        assert(mission::items_bytes(a + b) =~= mission::items_bytes(a) + mission::items_bytes(b));
    } else {
        let front = b.drop_last();
        law_missions_are_hashed_item_by_item(a, front);
        assert((a + b).drop_last() =~= a + front);
        assert((a + b).last() == b.last());
        assert(mission::items_bytes(a + b) =~= mission::items_bytes(a) + mission::items_bytes(b));
    }
}

/// A digest is shown as the list of its bytes in decimal.
pub proof fn law_digests_are_shown_as_lists(digest: Seq<u8>, numbers: Seq<Seq<char>>)
    requires
        numbers.len() == digest.len(),
        forall|i: int| 0 <= i < digest.len() ==> #[trigger] numbers[i] == text::decimal(
            digest[i] as nat,
        ),
    ensures
        mission::digest_text(digest) == "Array(["@ + text::joined(numbers, ", "@) + "])"@,
{
    assert(digest.map_values(|b: u8| text::decimal(b as nat)) =~= numbers);
}

/// The views of items show all that these hold, in order.
pub proof fn law_views_of_items_are_complete(items: Seq<MissionItem>, i: int)
    requires
        0 <= i < items.len(),
    ensures
        mission::item_views(items).len() == items.len(),
        ({
            let item = items[i];
            let view = mission::item_views(items)[i];
            &&& view.param1 == item.param1
            &&& view.param2 == item.param2
            &&& view.param3 == item.param3
            &&& view.param4 == item.param4
            &&& view.x == item.x
            &&& view.y == item.y
            &&& view.z == item.z
            &&& view.seq == item.seq
            &&& view.command.code == item.command.code
            &&& view.command.name == item.command.name@
            &&& view.target_system == item.target_system
            &&& view.target_component == item.target_component
            &&& view.frame.code == item.frame.code
            &&& view.frame.name == item.frame.name@
            &&& view.current == item.current
            &&& view.autocontinue == item.autocontinue
        }),
{
}

/// A hash is shown by its first twelve bytes, if a character ends there, and otherwise as a
/// whole.
pub proof fn law_hashes_are_shown_by_their_beginning(hash: Seq<char>, head: Seq<char>)
    ensures
        is_char_boundary(encode_utf8(hash), 12) && encode_utf8(head) == encode_utf8(hash).take(12)
            ==> reports::shortened(hash) == head,
        !is_char_boundary(encode_utf8(hash), 12) ==> reports::shortened(hash) == hash,
{
    encode_utf8_decode_utf8(head);
    assert(encode_utf8(hash).take(12) =~= encode_utf8(hash).subrange(0, 12));
}

/// Signing timestamps count units of ten microseconds: they are zero at the start of 2015,
/// every second later makes 100,000 more, every ten microseconds later make one more, and
/// of an earlier second only its microseconds count.
pub proof fn law_timestamps_count_ten_microseconds(secs: int, micros: int, later: int)
    requires
        0 <= micros < 1_000_000,
        0 <= later,
    ensures
        signing::signing_ticks(1_420_070_400, 0) == 0,
        secs >= 1_420_070_400 ==> signing::signing_ticks(secs + later, micros)
            == signing::signing_ticks(secs, micros) + 100_000 * later,
        signing::signing_ticks(secs, micros + 10 * later) == signing::signing_ticks(secs, micros)
            + later,
        micros < 10 ==> signing::signing_ticks(secs, micros) == signing::signing_ticks(secs, 0),
        secs < 1_420_070_400 ==> signing::signing_ticks(secs, micros) == signing::signing_ticks(
            1_420_070_400,
            micros,
        ),
{
}

} // verus!
