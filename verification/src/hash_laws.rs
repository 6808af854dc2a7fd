//! What mission hashes tell apart.
//!
//! A mission is hashed by a text of bytes. The laws here say which missions have the same
//! bytes, and that a digest can be read back from the form in which it is shown: two hashes
//! are equal only if the missions are, or if SHA-256 maps different bytes to one digest.
use vstd::prelude::*;
use vstd::utf8::*;
use crate::mavlink_client::Command;
use crate::mission;
use crate::mission::MissionItemView;
use crate::names;
use crate::text;

verus! {

/// In how many of the hashed fields two items differ. Of the command and of the frame the
/// name is hashed.
#[verifier::opaque]
pub open spec fn differences(a: MissionItemView, b: MissionItemView) -> nat {
    one_if(a.param1 != b.param1) + one_if(a.param2 != b.param2) + one_if(a.param3 != b.param3)
        + one_if(a.param4 != b.param4) + one_if(a.x != b.x) + one_if(a.y != b.y) + one_if(
        a.z != b.z,
    ) + one_if(a.seq != b.seq) + one_if(a.command.name != b.command.name) + one_if(
        a.target_system != b.target_system,
    ) + one_if(a.target_component != b.target_component) + one_if(a.frame.name != b.frame.name)
        + one_if(a.current != b.current) + one_if(a.autocontinue != b.autocontinue)
}

/// One for a condition that holds, and zero for one that does not.
pub open spec fn one_if(condition: bool) -> nat {
    if condition {
        1
    } else {
        0
    }
}

/// Whether two items agree in all hashed fields.
pub open spec fn alike(a: MissionItemView, b: MissionItemView) -> bool {
    differences(a, b) == 0
}

/// Two texts that end in parts of the same length are equal only if the parts are, and what
/// stands before them.
proof fn lemma_peel<A>(a: Seq<A>, x: Seq<A>, b: Seq<A>, y: Seq<A>)
    requires
        a + x == b + y,
        x.len() == y.len(),
    ensures
        a == b,
        x == y,
{
    assert((a + x).len() == (b + y).len());
    assert(a =~= (a + x).take(a.len() as int));
    assert(b =~= (b + y).take(b.len() as int));
    assert(x =~= (a + x).skip(a.len() as int));
    assert(y =~= (b + y).skip(b.len() as int));
}

/// The number of values that `width` bytes can hold.
spec fn capacity(width: nat) -> nat
    decreases width,
{
    if width == 0 {
        1
    } else {
        256 * capacity((width - 1) as nat)
    }
}

proof fn lemma_le_len(v: nat, width: nat)
    ensures
        mission::le_bytes(v, width).len() == width,
    decreases width,
{
    if width > 0 {
        lemma_le_len(v / 256, (width - 1) as nat);
    }
}

proof fn lemma_le_injective(v: nat, w: nat, width: nat)
    requires
        v < capacity(width),
        w < capacity(width),
        mission::le_bytes(v, width) == mission::le_bytes(w, width),
    ensures
        v == w,
    decreases width,
{
    if width > 0 {
        let less = (width - 1) as nat;
        let x = seq![(v % 256) as u8];
        let y = seq![(w % 256) as u8];
        lemma_le_len(v / 256, less);
        lemma_le_len(w / 256, less);
        lemma_peel(x, mission::le_bytes(v / 256, less), y, mission::le_bytes(w / 256, less));
        assert(x[0] == y[0]);
        lemma_le_injective(v / 256, w / 256, less);
    }
}

/// The bytes of an item up to the command's name.
spec fn head_bytes(item: MissionItemView) -> Seq<u8> {
    mission::le_bytes(item.param1 as nat, 4) + mission::le_bytes(item.param2 as nat, 4)
        + mission::le_bytes(item.param3 as nat, 4) + mission::le_bytes(item.param4 as nat, 4)
        + mission::le_bytes(mission::twos_complement(item.x), 4) + mission::le_bytes(
        mission::twos_complement(item.y),
        4,
    ) + mission::le_bytes(item.z as nat, 4) + mission::le_bytes(item.seq as nat, 2)
}

proof fn lemma_head_len(item: MissionItemView)
    ensures
        head_bytes(item).len() == 30,
{
    lemma_le_len(item.param1 as nat, 4);
    lemma_le_len(item.param2 as nat, 4);
    lemma_le_len(item.param3 as nat, 4);
    lemma_le_len(item.param4 as nat, 4);
    lemma_le_len(mission::twos_complement(item.x), 4);
    lemma_le_len(mission::twos_complement(item.y), 4);
    lemma_le_len(item.z as nat, 4);
    lemma_le_len(item.seq as nat, 2);
}

/// Takes off the last of some fields, and compares it.
proof fn lemma_peel_le(a: Seq<u8>, v: nat, b: Seq<u8>, w: nat, width: nat)
    requires
        a + mission::le_bytes(v, width) == b + mission::le_bytes(w, width),
        v < capacity(width),
        w < capacity(width),
    ensures
        a == b,
        v == w,
{
    lemma_le_len(v, width);
    lemma_le_len(w, width);
    lemma_peel(a, mission::le_bytes(v, width), b, mission::le_bytes(w, width));
    lemma_le_injective(v, w, width);
}

proof fn lemma_head_injective(a: MissionItemView, b: MissionItemView)
    requires
        head_bytes(a) == head_bytes(b),
    ensures
        a.param1 == b.param1,
        a.param2 == b.param2,
        a.param3 == b.param3,
        a.param4 == b.param4,
        a.x == b.x,
        a.y == b.y,
        a.z == b.z,
        a.seq == b.seq,
{
    assert(capacity(4) == 0x1_0000_0000 && capacity(2) == 0x1_0000) by {
        reveal_with_fuel(capacity, 5);
    }
    let none = Seq::<u8>::empty();
    let a1 = mission::le_bytes(a.param1 as nat, 4);
    let b1 = mission::le_bytes(b.param1 as nat, 4);
    let a2 = a1 + mission::le_bytes(a.param2 as nat, 4);
    let b2 = b1 + mission::le_bytes(b.param2 as nat, 4);
    let a3 = a2 + mission::le_bytes(a.param3 as nat, 4);
    let b3 = b2 + mission::le_bytes(b.param3 as nat, 4);
    let a4 = a3 + mission::le_bytes(a.param4 as nat, 4);
    let b4 = b3 + mission::le_bytes(b.param4 as nat, 4);
    let a5 = a4 + mission::le_bytes(mission::twos_complement(a.x), 4);
    let b5 = b4 + mission::le_bytes(mission::twos_complement(b.x), 4);
    let a6 = a5 + mission::le_bytes(mission::twos_complement(a.y), 4);
    let b6 = b5 + mission::le_bytes(mission::twos_complement(b.y), 4);
    let a7 = a6 + mission::le_bytes(a.z as nat, 4);
    let b7 = b6 + mission::le_bytes(b.z as nat, 4);
    lemma_peel_le(a7, a.seq as nat, b7, b.seq as nat, 2);
    lemma_peel_le(a6, a.z as nat, b6, b.z as nat, 4);
    lemma_peel_le(a5, mission::twos_complement(a.y), b5, mission::twos_complement(b.y), 4);
    lemma_peel_le(a4, mission::twos_complement(a.x), b4, mission::twos_complement(b.x), 4);
    lemma_peel_le(a3, a.param4 as nat, b3, b.param4 as nat, 4);
    lemma_peel_le(a2, a.param3 as nat, b2, b.param3 as nat, 4);
    lemma_peel_le(a1, a.param2 as nat, b1, b.param2 as nat, 4);
    assert(none + a1 =~= a1);
    assert(none + b1 =~= b1);
    lemma_peel_le(none, a.param1 as nat, none, b.param1 as nat, 4);
}

proof fn lemma_item_len(item: MissionItemView)
    ensures
        mission::item_bytes(item).len() == 34 + encode_utf8(item.command.name).len() + encode_utf8(
            item.frame.name,
        ).len(),
{
    lemma_head_len(item);
    assert(mission::item_bytes(item) == head_bytes(item) + encode_utf8(item.command.name)
        + seq![item.target_system] + seq![item.target_component] + encode_utf8(item.frame.name)
        + seq![item.current] + seq![item.autocontinue]);
}

/// Items that agree in the name of the command or of the frame have the same bytes exactly
/// if they agree in all hashed fields.
pub proof fn law_item_bytes_tell_items_apart(a: MissionItemView, b: MissionItemView)
    requires
        a.command.name == b.command.name || a.frame.name == b.frame.name,
    ensures
        mission::item_bytes(a) == mission::item_bytes(b) <==> alike(a, b),
{
    reveal(differences);
    if mission::item_bytes(a) == mission::item_bytes(b) {
        lemma_item_len(a);
        lemma_item_len(b);
        lemma_head_len(a);
        lemma_head_len(b);
        let a1 = head_bytes(a) + encode_utf8(a.command.name);
        let b1 = head_bytes(b) + encode_utf8(b.command.name);
        let a2 = a1 + seq![a.target_system];
        let b2 = b1 + seq![b.target_system];
        let a3 = a2 + seq![a.target_component];
        let b3 = b2 + seq![b.target_component];
        let a4 = a3 + encode_utf8(a.frame.name);
        let b4 = b3 + encode_utf8(b.frame.name);
        let a5 = a4 + seq![a.current];
        let b5 = b4 + seq![b.current];
        lemma_peel(a5, seq![a.autocontinue], b5, seq![b.autocontinue]);
        lemma_peel(a4, seq![a.current], b4, seq![b.current]);
        lemma_peel(a3, encode_utf8(a.frame.name), b3, encode_utf8(b.frame.name));
        lemma_peel(a2, seq![a.target_component], b2, seq![b.target_component]);
        lemma_peel(a1, seq![a.target_system], b1, seq![b.target_system]);
        lemma_peel(
            head_bytes(a),
            encode_utf8(a.command.name),
            head_bytes(b),
            encode_utf8(b.command.name),
        );
        assert(seq![a.autocontinue][0] == seq![b.autocontinue][0]);
        assert(seq![a.current][0] == seq![b.current][0]);
        assert(seq![a.target_component][0] == seq![b.target_component][0]);
        assert(seq![a.target_system][0] == seq![b.target_system][0]);
        lemma_head_injective(a, b);
        names::lemma_encode_utf8_injective(a.command.name, b.command.name);
        names::lemma_encode_utf8_injective(a.frame.name, b.frame.name);
    }
}

proof fn lemma_alike_bytes(a: MissionItemView, b: MissionItemView)
    requires
        alike(a, b),
    ensures
        mission::item_bytes(a) == mission::item_bytes(b),
{
    reveal(differences);
}

/// Missions whose items agree in all hashed fields have the same bytes, and so the same
/// hash.
pub proof fn law_alike_missions_have_one_hash(
    a: Seq<MissionItemView>,
    b: Seq<MissionItemView>,
)
    requires
        a.len() == b.len(),
        forall|i: int| 0 <= i < a.len() ==> alike(#[trigger] a[i], b[i]),
    ensures
        mission::items_bytes(a) == mission::items_bytes(b),
        mission::digest_text(mission::sha256(mission::items_bytes(a))) == mission::digest_text(
            mission::sha256(mission::items_bytes(b)),
        ),
    decreases a.len(),
{
    if a.len() > 0 {
        let last = a.len() - 1;
        assert(alike(a[last], b[last]));
        lemma_alike_bytes(a[last], b[last]);
        assert forall|i: int| 0 <= i < a.drop_last().len() implies alike(
            #[trigger] a.drop_last()[i],
            b.drop_last()[i],
        ) by {
            assert(alike(a[i], b[i]));
        }
        law_alike_missions_have_one_hash(a.drop_last(), b.drop_last());
    }
}

proof fn lemma_one_item_left(a: Seq<MissionItemView>, b: Seq<MissionItemView>, at: int)
    requires
        a.len() == b.len(),
        0 <= at < a.len(),
        forall|i: int| 0 <= i < a.len() && i != at ==> alike(#[trigger] a[i], b[i]),
        mission::items_bytes(a) == mission::items_bytes(b),
    ensures
        mission::item_bytes(a[at]) == mission::item_bytes(b[at]),
    decreases a.len(),
{
    let last = a.len() - 1;
    let x = a.drop_last();
    let y = b.drop_last();
    assert forall|i: int| 0 <= i < x.len() && i != at implies alike(#[trigger] x[i], y[i]) by {
        assert(alike(a[i], b[i]));
    }
    if at == last {
        law_alike_missions_have_one_hash(x, y);
        let same = mission::items_bytes(x);
        assert((same + mission::item_bytes(a[at])).len() == (same + mission::item_bytes(
            b[at],
        )).len());
        lemma_peel(same, mission::item_bytes(a[at]), same, mission::item_bytes(b[at]));
    } else {
        assert(alike(a[last], b[last]));
        lemma_alike_bytes(a[last], b[last]);
        lemma_peel(
            mission::items_bytes(x),
            mission::item_bytes(a[last]),
            mission::items_bytes(y),
            mission::item_bytes(b[last]),
        );
        lemma_one_item_left(x, y, at);
    }
}

/// A single changed field shows: missions of the same size that differ in exactly one hashed
/// field of one item have different bytes. Their hashes then differ too, unless SHA-256 maps
/// the two to one digest.
pub proof fn law_one_changed_field_shows(
    a: Seq<MissionItemView>,
    b: Seq<MissionItemView>,
    at: int,
)
    requires
        a.len() == b.len(),
        0 <= at < a.len(),
        forall|i: int| 0 <= i < a.len() && i != at ==> alike(#[trigger] a[i], b[i]),
        differences(a[at], b[at]) == 1,
    ensures
        mission::items_bytes(a) != mission::items_bytes(b),
        mission::sha256(mission::items_bytes(a)) != mission::sha256(mission::items_bytes(b))
            ==> mission::digest_text(mission::sha256(mission::items_bytes(a)))
            != mission::digest_text(mission::sha256(mission::items_bytes(b))),
{
    assert(a[at].command.name == b[at].command.name || a[at].frame.name == b[at].frame.name) by {
        reveal(differences);
    }
    law_item_bytes_tell_items_apart(a[at], b[at]);
    if mission::items_bytes(a) == mission::items_bytes(b) {
        lemma_one_item_left(a, b, at);
    }
    law_digest_text_is_injective(
        mission::sha256(mission::items_bytes(a)),
        mission::sha256(mission::items_bytes(b)),
    );
}

/// Whether an item has the frame of all built items, and the command of one of the legs.
pub open spec fn is_built(item: MissionItemView) -> bool {
    &&& item.frame == mission::relative_alt_frame()
    &&& {
        ||| item.command == Command::NavTakeoff.value()
        ||| item.command == Command::NavWaypoint.value()
        ||| item.command == Command::NavLand.value()
    }
}

/// The commands of built items can be told by the last byte of their names.
proof fn lemma_command_endings(a: MissionItemView, b: MissionItemView)
    requires
        is_built(a),
        is_built(b),
    ensures
        encode_utf8(a.command.name).len() > 0,
        encode_utf8(b.command.name).len() > 0,
        encode_utf8(a.command.name).last() == encode_utf8(b.command.name).last() ==> a.command
            == b.command,
{
    reveal_strlit("MAV_CMD_NAV_TAKEOFF");
    reveal_strlit("MAV_CMD_NAV_WAYPOINT");
    reveal_strlit("MAV_CMD_NAV_LAND");
    assert(is_ascii_chars(a.command.name));
    assert(is_ascii_chars(b.command.name));
    is_ascii_chars_encode_utf8(a.command.name);
    is_ascii_chars_encode_utf8(b.command.name);
    assert(encode_utf8(a.command.name).last() == a.command.name.last() as u8);
    assert(encode_utf8(b.command.name).last() == b.command.name.last() as u8);
}

proof fn lemma_ending_byte(before: Seq<u8>, item: MissionItemView)
    requires
        encode_utf8(item.command.name).len() > 0,
    ensures
        ({
            let whole = before + mission::item_bytes(item);
            let at = whole.len() - encode_utf8(item.frame.name).len() - 5;
            &&& 0 <= at < whole.len()
            &&& whole[at] == encode_utf8(item.command.name).last()
        }),
{
    let head = head_bytes(item);
    let command = encode_utf8(item.command.name);
    let frame = encode_utf8(item.frame.name);
    let tail = seq![item.target_system] + seq![item.target_component] + frame + seq![item.current]
        + seq![item.autocontinue];
    assert(mission::item_bytes(item) =~= head + command + tail);
    let whole = before + mission::item_bytes(item);
    let at = before.len() + head.len() + command.len() - 1;
    assert(whole[at] == (head + command + tail)[head.len() + command.len() - 1]);
    assert(tail.len() == frame.len() + 4);
}

/// Takes off the last of some built items, and compares it.
proof fn lemma_last_built(before: Seq<u8>, p: MissionItemView, other: Seq<u8>, q: MissionItemView)
    requires
        is_built(p),
        is_built(q),
        before + mission::item_bytes(p) == other + mission::item_bytes(q),
    ensures
        before == other,
        p == q,
{
    lemma_command_endings(p, q);
    lemma_ending_byte(before, p);
    lemma_ending_byte(other, q);
    lemma_item_len(p);
    lemma_item_len(q);
    lemma_peel(before, mission::item_bytes(p), other, mission::item_bytes(q));
    law_item_bytes_tell_items_apart(p, q);
    reveal(differences);
}

/// The bytes of a built mission determine it: two missions of built items, of whatever size,
/// have the same bytes only if they are the same, item for item and field for field, the
/// codes of command and frame among them.
pub proof fn law_bytes_determine_built_missions(
    a: Seq<MissionItemView>,
    b: Seq<MissionItemView>,
)
    requires
        forall|i: int| 0 <= i < a.len() ==> is_built(#[trigger] a[i]),
        forall|i: int| 0 <= i < b.len() ==> is_built(#[trigger] b[i]),
        mission::items_bytes(a) == mission::items_bytes(b),
    ensures
        a == b,
    decreases a.len(),
{
    if a.len() == 0 || b.len() == 0 {
        if a.len() > 0 {
            lemma_item_len(a.last());
        }
        if b.len() > 0 {
            lemma_item_len(b.last());
        }
        assert(a =~= b);
    } else {
        let p = a.last();
        let q = b.last();
        let x = a.drop_last();
        let y = b.drop_last();
        assert(p == a[a.len() - 1] && q == b[b.len() - 1]);
        lemma_last_built(mission::items_bytes(x), p, mission::items_bytes(y), q);
        law_bytes_determine_built_missions(x, y);
        assert(a =~= x.push(p));
        assert(b =~= y.push(q));
    }
}

/// Every item that is built from a leg of a mission is a built item in this sense.
pub proof fn law_legs_become_built_items(
    target_system: u8,
    target_component: u8,
    index: int,
    start: (i32, i32),
    offset_position: (i32, i32),
    leg: mission::MissionSpec,
)
    ensures
        is_built(
            mission::item_for(target_system, target_component, index, start, offset_position, leg),
        ),
{
}

/// Whether a text is made of decimal digits.
spec fn is_digits(s: Seq<char>) -> bool {
    forall|i: int| 0 <= i < s.len() ==> '0' <= #[trigger] s[i] <= '9'
}

proof fn lemma_digits(n: nat)
    ensures
        is_digits(text::decimal(n)),
        text::decimal(n).len() > 0,
    decreases n,
{
    if n >= 10 {
        lemma_digits(n / 10);
    }
}

proof fn lemma_digit_code(d: nat)
    requires
        d < 10,
    ensures
        text::digit_char(d) as u32 == 48 + d,
{
    if d == 0 {
    } else if d == 1 {
    } else if d == 2 {
    } else if d == 3 {
    } else if d == 4 {
    } else if d == 5 {
    } else if d == 6 {
    } else if d == 7 {
    } else if d == 8 {
    } else {
        assert(d == 9);
    }
}

proof fn lemma_decimal_injective(m: nat, n: nat)
    requires
        text::decimal(m) == text::decimal(n),
    ensures
        m == n,
    decreases m,
{
    let x = seq![text::digit_char(m % 10)];
    let y = seq![text::digit_char(n % 10)];
    lemma_digit_code(m % 10);
    lemma_digit_code(n % 10);
    if m >= 10 {
        lemma_digits(m / 10);
    }
    if n >= 10 {
        lemma_digits(n / 10);
    }
    if m < 10 && n < 10 {
        assert(text::decimal(m) == x && text::decimal(n) == y);
        assert(x[0] == y[0]);
    } else if m < 10 {
        assert(text::decimal(n).len() == text::decimal(n / 10).len() + 1);
    } else if n < 10 {
        assert(text::decimal(m).len() == text::decimal(m / 10).len() + 1);
    } else {
        lemma_peel(text::decimal(m / 10), x, text::decimal(n / 10), y);
        assert(x[0] == y[0]);
        lemma_decimal_injective(m / 10, n / 10);
    }
}

/// What stands behind the last separator has the same length in equal texts, if it is made
/// of digits.
proof fn lemma_last_part(a: Seq<char>, x: Seq<char>, b: Seq<char>, y: Seq<char>)
    requires
        a + ", "@ + x == b + ", "@ + y,
        is_digits(x),
        is_digits(y),
    ensures
        x.len() >= y.len(),
{
    reveal_strlit(", ");
    let left = a + ", "@ + x;
    let right = b + ", "@ + y;
    if x.len() < y.len() {
        let at = left.len() - x.len() - 2;
        assert(left[at] == ", "@[0]);
        if x.len() + 1 == y.len() {
            assert(right[at] == ", "@[1]);
        } else {
            assert(right[at] == y[at - b.len() - 2]);
        }
    }
}

proof fn lemma_joined_injective(p: Seq<Seq<char>>, q: Seq<Seq<char>>)
    requires
        forall|i: int| 0 <= i < p.len() ==> is_digits(#[trigger] p[i]) && p[i].len() > 0,
        forall|i: int| 0 <= i < q.len() ==> is_digits(#[trigger] q[i]) && q[i].len() > 0,
        text::joined(p, ", "@) == text::joined(q, ", "@),
    ensures
        p == q,
    decreases p.len(),
{
    reveal_strlit(", ");
    let separator = ", "@;
    if p.len() >= 2 && q.len() >= 2 {
        let a = text::joined(p.drop_last(), separator);
        let b = text::joined(q.drop_last(), separator);
        assert(p.last() == p[p.len() - 1] && q.last() == q[q.len() - 1]);
        lemma_last_part(a, p.last(), b, q.last());
        lemma_last_part(b, q.last(), a, p.last());
        lemma_peel(a + separator, p.last(), b + separator, q.last());
        lemma_peel(a, separator, b, separator);
        lemma_joined_injective(p.drop_last(), q.drop_last());
        assert(p =~= p.drop_last().push(p.last()));
        assert(q =~= q.drop_last().push(q.last()));
    } else if p.len() >= 2 {
        lemma_separated(p, q);
    } else if q.len() >= 2 {
        lemma_separated(q, p);
    } else {
        assert(p.len() == 1 ==> is_digits(p[0]) && p[0].len() > 0);
        assert(q.len() == 1 ==> is_digits(q[0]) && q[0].len() > 0);
        assert(p =~= q);
    }
}

/// Two or more parts show a separator, which fewer do not.
proof fn lemma_separated(p: Seq<Seq<char>>, q: Seq<Seq<char>>)
    requires
        p.len() >= 2,
        q.len() < 2,
        forall|i: int| 0 <= i < q.len() ==> is_digits(#[trigger] q[i]),
    ensures
        text::joined(p, ", "@) != text::joined(q, ", "@),
{
    reveal_strlit(", ");
    let before = text::joined(p.drop_last(), ", "@);
    let shown = text::joined(p, ", "@);
    assert(shown == before + ", "@ + p.last());
    assert(shown[before.len() as int] == ',');
    if q.len() == 1 {
        assert(is_digits(q[0]));
    }
}

/// A digest can be read back from the form in which it is shown: different digests are
/// shown differently.
pub proof fn law_digest_text_is_injective(a: Seq<u8>, b: Seq<u8>)
    ensures
        mission::digest_text(a) == mission::digest_text(b) ==> a == b,
{
    if mission::digest_text(a) == mission::digest_text(b) {
        let p = a.map_values(|v: u8| text::decimal(v as nat));
        let q = b.map_values(|v: u8| text::decimal(v as nat));
        let x = text::joined(p, ", "@);
        let y = text::joined(q, ", "@);
        lemma_peel("Array(["@ + x, "])"@, "Array(["@ + y, "])"@);
        assert(("Array(["@ + x).len() == ("Array(["@ + y).len());
        lemma_peel("Array(["@, x, "Array(["@, y);
        assert forall|i: int| 0 <= i < p.len() implies is_digits(#[trigger] p[i]) && p[i].len()
            > 0 by {
            lemma_digits(a[i] as nat);
        }
        assert forall|i: int| 0 <= i < q.len() implies is_digits(#[trigger] q[i]) && q[i].len()
            > 0 by {
            lemma_digits(b[i] as nat);
        }
        lemma_joined_injective(p, q);
        assert(a.len() == p.len() && b.len() == q.len());
        assert forall|i: int| 0 <= i < a.len() implies a[i] == b[i] by {
            assert(p[i] == q[i]);
            lemma_decimal_injective(a[i] as nat, b[i] as nat);
        }
        assert(a =~= b);
    }
}

} // verus!
