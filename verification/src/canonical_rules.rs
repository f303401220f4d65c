//! What the canonical text of a plan tells apart, and how bytes, positions and values are written.

use vstd::prelude::*;
use crate::block::BlockPos;
use crate::build_plan::{
    asked_name, operation_json, operations_json, plan_json, triple_json, BuildOperation, BuildPlan,
};
use crate::digest::{hex, hex_digit};
use crate::json::json_string;
use crate::text::{decimal, decimal_nat};
use crate::text_rules::{different_numbers_are_written_differently, written_numbers_read_back};

verus! {

// ---- numbers and texts behind one another ----

proof fn digits_behind_the_first(n: int)
    ensures
        decimal(n).len() > 0,
        forall|i: int| 0 < i < decimal(n).len() ==> '0' <= #[trigger] decimal(n)[i] <= '9',
{
    if n < 0 {
        written_numbers_read_back((-n) as nat);
        let digits = decimal_nat((-n) as nat);
        assert forall|i: int| 0 < i < decimal(n).len() implies '0' <= #[trigger] decimal(n)[i]
            <= '9' by {
            assert(decimal(n)[i] == digits[i - 1]);
        }
    } else {
        written_numbers_read_back(n as nat);
    }
}

/// Two numbers are read back from what they stand before, where that does not go on with a digit.
pub proof fn numbers_end_where_no_digit_follows(a: int, b: int, s: Seq<char>, t: Seq<char>)
    requires
        decimal(a) + s == decimal(b) + t,
        s.len() > 0 && !('0' <= s[0] <= '9'),
        t.len() > 0 && !('0' <= t[0] <= '9'),
    ensures
        a == b,
        s == t,
{
    let x = decimal(a);
    let y = decimal(b);
    let whole = x + s;
    digits_behind_the_first(a);
    digits_behind_the_first(b);
    if x.len() < y.len() {
        assert(whole[x.len() as int] == s[0]);
        assert((y + t)[x.len() as int] == y[x.len() as int]);
    }
    if y.len() < x.len() {
        assert((y + t)[y.len() as int] == t[0]);
        assert(whole[y.len() as int] == x[y.len() as int]);
    }
    assert(x.len() == y.len());
    assert(x =~= whole.take(x.len() as int));
    assert(y =~= (y + t).take(y.len() as int));
    assert(s =~= whole.skip(x.len() as int));
    assert(t =~= (y + t).skip(y.len() as int));
    different_numbers_are_written_differently(a, b);
}

proof fn same_start(p: Seq<char>, s: Seq<char>, t: Seq<char>)
    requires
        p + s == p + t,
    ensures
        s == t,
{
    assert(s =~= (p + s).skip(p.len() as int));
    assert(t =~= (p + t).skip(p.len() as int));
}

proof fn position_text(p: BlockPos)
    ensures
        p.spec_text() == "BlockPos { x: "@ + (decimal(p.x as int) + (", y: "@ + (decimal(p.y as int)
            + (", z: "@ + (decimal(p.z as int) + " }"@))))),
{
    let p0 = "BlockPos { x: "@;
    let p1 = decimal(p.x as int);
    let p2 = ", y: "@;
    let p3 = decimal(p.y as int);
    let p4 = ", z: "@;
    let p5 = decimal(p.z as int);
    let p6 = " }"@;
    let l0 = p0;
    let l1 = l0 + p1;
    let l2 = l1 + p2;
    let l3 = l2 + p3;
    let l4 = l3 + p4;
    let l5 = l4 + p5;
    let l6 = l5 + p6;
    let r6 = p6;
    let r5 = p5 + r6;
    let r4 = p4 + r5;
    let r3 = p3 + r4;
    let r2 = p2 + r3;
    let r1 = p1 + r2;
    regroup(l4, p5, r6);
    regroup(l3, p4, r5);
    regroup(l2, p3, r4);
    regroup(l1, p2, r3);
    regroup(l0, p1, r2);
    assert(p.spec_text() == l6);
}

/// Different positions have different texts.
pub proof fn positions_are_written_differently(p: BlockPos, q: BlockPos)
    requires
        p.spec_text() == q.spec_text(),
    ensures
        p == q,
{
    reveal_strlit(", y: ");
    reveal_strlit(", z: ");
    reveal_strlit(" }");
    let head = "BlockPos { x: "@;
    let a2 = ", z: "@ + (decimal(p.z as int) + " }"@);
    let b2 = ", z: "@ + (decimal(q.z as int) + " }"@);
    let a1 = ", y: "@ + (decimal(p.y as int) + a2);
    let b1 = ", y: "@ + (decimal(q.y as int) + b2);
    position_text(p);
    position_text(q);
    same_start(head, decimal(p.x as int) + a1, decimal(q.x as int) + b1);
    assert(a1[0] == ',' && b1[0] == ',' && a2[0] == ',' && b2[0] == ',');
    numbers_end_where_no_digit_follows(p.x as int, q.x as int, a1, b1);
    same_start(", y: "@, decimal(p.y as int) + a2, decimal(q.y as int) + b2);
    numbers_end_where_no_digit_follows(p.y as int, q.y as int, a2, b2);
    same_start(", z: "@, decimal(p.z as int) + " }"@, decimal(q.z as int) + " }"@);
    numbers_end_where_no_digit_follows(p.z as int, q.z as int, " }"@, " }"@);
}

// ---- plans ----

proof fn triples_are_read_back(u: Seq<i32>, v: Seq<i32>, s: Seq<char>, t: Seq<char>)
    requires
        u.len() == 3,
        v.len() == 3,
        triple_json(u) + s == triple_json(v) + t,
    ensures
        u == v,
        s == t,
{
    reveal_strlit("[");
    reveal_strlit(",");
    reveal_strlit("]");
    let a3 = "]"@ + s;
    let b3 = "]"@ + t;
    let a2 = ","@ + (decimal(u[2] as int) + a3);
    let b2 = ","@ + (decimal(v[2] as int) + b3);
    let a1 = ","@ + (decimal(u[1] as int) + a2);
    let b1 = ","@ + (decimal(v[1] as int) + b2);
    assert(triple_json(u) + s =~= "["@ + (decimal(u[0] as int) + a1));
    assert(triple_json(v) + t =~= "["@ + (decimal(v[0] as int) + b1));
    same_start("["@, decimal(u[0] as int) + a1, decimal(v[0] as int) + b1);
    assert(a1[0] == ',' && b1[0] == ',' && a2[0] == ',' && b2[0] == ',');
    assert(a3[0] == ']' && b3[0] == ']');
    numbers_end_where_no_digit_follows(u[0] as int, v[0] as int, a1, b1);
    same_start(","@, decimal(u[1] as int) + a2, decimal(v[1] as int) + b2);
    numbers_end_where_no_digit_follows(u[1] as int, v[1] as int, a2, b2);
    same_start(","@, decimal(u[2] as int) + a3, decimal(v[2] as int) + b3);
    numbers_end_where_no_digit_follows(u[2] as int, v[2] as int, a3, b3);
    same_start("]"@, s, t);
    assert(u =~= v);
}

/// True iff the two operations are of the same kind and at the same place.
pub open spec fn same_place(a: BuildOperation, b: BuildOperation) -> bool {
    match (a, b) {
        (
            BuildOperation::SetBlock { at: x, block: p },
            BuildOperation::SetBlock { at: y, block: q },
        ) => x@ == y@,
        (
            BuildOperation::FillBox { from: x, to: u, block: p },
            BuildOperation::FillBox { from: y, to: v, block: q },
        ) => x@ == y@ && u@ == v@,
        _ => false,
    }
}

proof fn set_text(a: BuildOperation, s: Seq<char>)
    requires
        a is SetBlock,
    ensures
        operation_json(a) + s == "{\"op\":\"set\",\"at\":"@ + (triple_json(a->at@) + (
        ",\"block\":"@ + (json_string(asked_name(a)) + ("}"@ + s)))),
{
    assert(operation_json(a) + s =~= "{\"op\":\"set\",\"at\":"@ + (triple_json(a->at@) + (
    ",\"block\":"@ + (json_string(asked_name(a)) + ("}"@ + s)))));
}

proof fn fill_text(a: BuildOperation, s: Seq<char>)
    requires
        a is FillBox,
    ensures
        operation_json(a) + s == "{\"op\":\"fill_box\",\"from\":"@ + (triple_json(a->from@) + (
        ",\"to\":"@ + (triple_json(a->to@) + (",\"block\":"@ + (json_string(asked_name(a)) + ("}"@
            + s)))))),
{
    assert(operation_json(a) + s =~= "{\"op\":\"fill_box\",\"from\":"@ + (triple_json(a->from@) + (
    ",\"to\":"@ + (triple_json(a->to@) + (",\"block\":"@ + (json_string(asked_name(a)) + ("}"@
        + s)))))));
}

proof fn operations_are_read_back(a: BuildOperation, b: BuildOperation, s: Seq<char>, t: Seq<char>)
    requires
        asked_name(a) == asked_name(b),
        operation_json(a) + s == operation_json(b) + t,
    ensures
        same_place(a, b),
        s == t,
{
    reveal_strlit("{\"op\":\"set\",\"at\":");
    reveal_strlit("{\"op\":\"fill_box\",\"from\":");
    let set = "{\"op\":\"set\",\"at\":"@;
    let fill = "{\"op\":\"fill_box\",\"from\":"@;
    let name = json_string(asked_name(a));
    let sa = ",\"block\":"@ + (name + ("}"@ + s));
    let sb = ",\"block\":"@ + (name + ("}"@ + t));
    if a is SetBlock {
        set_text(a, s);
        assert((operation_json(a) + s)[7] == 's');
    } else {
        fill_text(a, s);
        assert((operation_json(a) + s)[7] == 'f');
    }
    if b is SetBlock {
        set_text(b, t);
        assert((operation_json(b) + t)[7] == 's');
    } else {
        fill_text(b, t);
        assert((operation_json(b) + t)[7] == 'f');
    }
    if a is SetBlock {
        same_start(set, triple_json(a->at@) + sa, triple_json(b->at@) + sb);
        triples_are_read_back(a->at@, b->at@, sa, sb);
    } else {
        let ta = ",\"to\":"@ + (triple_json(a->to@) + sa);
        let tb = ",\"to\":"@ + (triple_json(b->to@) + sb);
        same_start(fill, triple_json(a->from@) + ta, triple_json(b->from@) + tb);
        triples_are_read_back(a->from@, b->from@, ta, tb);
        same_start(",\"to\":"@, triple_json(a->to@) + sa, triple_json(b->to@) + sb);
        triples_are_read_back(a->to@, b->to@, sa, sb);
    }
    same_start(",\"block\":"@, name + ("}"@ + s), name + ("}"@ + t));
    same_start(name, "}"@ + s, "}"@ + t);
    same_start("}"@, s, t);
}

proof fn lists_are_read_back(
    a: Seq<BuildOperation>,
    b: Seq<BuildOperation>,
    n: nat,
    s: Seq<char>,
    t: Seq<char>,
)
    requires
        n <= a.len(),
        n <= b.len(),
        forall|i: int|
            #![trigger a[i]]
            #![trigger b[i]]
            0 <= i < n ==> asked_name(a[i]) == asked_name(b[i]),
        operations_json(a, n) + s == operations_json(b, n) + t,
    ensures
        forall|i: int| #![trigger a[i]] #![trigger b[i]] 0 <= i < n ==> same_place(a[i], b[i]),
        s == t,
    decreases n,
{
    if n == 0 {
        assert(operations_json(a, 0) + s =~= s);
        assert(operations_json(b, 0) + t =~= t);
    } else if n == 1 {
        operations_are_read_back(a[0], b[0], s, t);
    } else {
        let m = (n - 1) as nat;
        let sa = ","@ + (operation_json(a[n - 1]) + s);
        let sb = ","@ + (operation_json(b[n - 1]) + t);
        assert(operations_json(a, n) + s =~= operations_json(a, m) + sa);
        assert(operations_json(b, n) + t =~= operations_json(b, m) + sb);
        lists_are_read_back(a, b, m, sa, sb);
        same_start(","@, operation_json(a[n - 1]) + s, operation_json(b[n - 1]) + t);
        operations_are_read_back(a[n - 1], b[n - 1], s, t);
    }
}

proof fn regroup(p: Seq<char>, q: Seq<char>, s: Seq<char>)
    ensures
        p + q + s == p + (q + s),
{
    assert(p + q + s =~= p + (q + s));
}

/// What stands in the text of a plan from its version, its x, y and z, and its operations on.
spec fn from_operations(plan: BuildPlan) -> Seq<char> {
    operations_json(plan.operations@, plan.operations@.len()) + "]}"@
}

spec fn behind_z(plan: BuildPlan) -> Seq<char> {
    "},\"replace_mode\":"@ + (json_string(plan.replace_mode@) + (",\"operations\":["@
        + from_operations(plan)))
}

spec fn behind_y(plan: BuildPlan) -> Seq<char> {
    ",\"z\":"@ + (decimal(plan.anchor.z as int) + behind_z(plan))
}

spec fn behind_x(plan: BuildPlan) -> Seq<char> {
    ",\"y\":"@ + (decimal(plan.anchor.y as int) + behind_y(plan))
}

spec fn from_x(plan: BuildPlan) -> Seq<char> {
    ",\"anchor\":{\"x\":"@ + (decimal(plan.anchor.x as int) + behind_x(plan))
}

spec fn behind_version(plan: BuildPlan) -> Seq<char> {
    ",\"idempotency_key\":"@ + (json_string(plan.idempotency_key@) + from_x(plan))
}

proof fn plan_text(plan: BuildPlan)
    ensures
        plan_json(plan) == "{\"schema_version\":"@ + (decimal(plan.schema_version as int)
            + behind_version(plan)),
{
    let p0 = "{\"schema_version\":"@;
    let p1 = decimal_nat(plan.schema_version as nat);
    let p2 = ",\"idempotency_key\":"@;
    let p3 = json_string(plan.idempotency_key@);
    let p4 = ",\"anchor\":{\"x\":"@;
    let p5 = decimal(plan.anchor.x as int);
    let p6 = ",\"y\":"@;
    let p7 = decimal(plan.anchor.y as int);
    let p8 = ",\"z\":"@;
    let p9 = decimal(plan.anchor.z as int);
    let p10 = "},\"replace_mode\":"@;
    let p11 = json_string(plan.replace_mode@);
    let p12 = ",\"operations\":["@;
    let p13 = operations_json(plan.operations@, plan.operations@.len());
    let p14 = "]}"@;
    let l0 = p0;
    let l1 = l0 + p1;
    let l2 = l1 + p2;
    let l3 = l2 + p3;
    let l4 = l3 + p4;
    let l5 = l4 + p5;
    let l6 = l5 + p6;
    let l7 = l6 + p7;
    let l8 = l7 + p8;
    let l9 = l8 + p9;
    let l10 = l9 + p10;
    let l11 = l10 + p11;
    let l12 = l11 + p12;
    let l13 = l12 + p13;
    let l14 = l13 + p14;
    let r14 = p14;
    let r13 = p13 + r14;
    let r12 = p12 + r13;
    let r11 = p11 + r12;
    let r10 = p10 + r11;
    let r9 = p9 + r10;
    let r8 = p8 + r9;
    let r7 = p7 + r8;
    let r6 = p6 + r7;
    let r5 = p5 + r6;
    let r4 = p4 + r5;
    let r3 = p3 + r4;
    let r2 = p2 + r3;
    let r1 = p1 + r2;
    regroup(l12, p13, r14);
    regroup(l11, p12, r13);
    regroup(l10, p11, r12);
    regroup(l9, p10, r11);
    regroup(l8, p9, r10);
    regroup(l7, p8, r9);
    regroup(l6, p7, r8);
    regroup(l5, p6, r7);
    regroup(l4, p5, r6);
    regroup(l3, p4, r5);
    regroup(l2, p3, r4);
    regroup(l1, p2, r3);
    regroup(l0, p1, r2);
    assert(plan_json(plan) == l14);
}

proof fn tails_do_not_go_on_with_digits(plan: BuildPlan)
    ensures
        behind_version(plan).len() > 0 && behind_version(plan)[0] == ',',
        behind_x(plan).len() > 0 && behind_x(plan)[0] == ',',
        behind_y(plan).len() > 0 && behind_y(plan)[0] == ',',
        behind_z(plan).len() > 0 && behind_z(plan)[0] == '}',
{
    reveal_strlit(",\"idempotency_key\":");
    reveal_strlit(",\"y\":");
    reveal_strlit(",\"z\":");
    reveal_strlit("},\"replace_mode\":");
}

/// The canonical text of a plan keeps every number of it: of two plans with one key, one mode and, one
/// after the other, operations on the same blocks, the texts are equal only where the versions, the
/// anchors and the places of all operations are.
pub proof fn plans_are_written_differently(a: BuildPlan, b: BuildPlan)
    requires
        a.idempotency_key@ == b.idempotency_key@,
        a.replace_mode@ == b.replace_mode@,
        a.operations@.len() == b.operations@.len(),
        forall|i: int|
            #![trigger a.operations@[i]]
            #![trigger b.operations@[i]]
            0 <= i < a.operations@.len() ==> asked_name(a.operations@[i]) == asked_name(
                b.operations@[i],
            ),
        plan_json(a) == plan_json(b),
    ensures
        a.schema_version == b.schema_version,
        a.anchor.x == b.anchor.x,
        a.anchor.y == b.anchor.y,
        a.anchor.z == b.anchor.z,
        forall|i: int|
            #![trigger a.operations@[i]]
            #![trigger b.operations@[i]]
            0 <= i < a.operations@.len() ==> same_place(a.operations@[i], b.operations@[i]),
{
    plan_text(a);
    plan_text(b);
    tails_do_not_go_on_with_digits(a);
    tails_do_not_go_on_with_digits(b);
    let key = json_string(a.idempotency_key@);
    let mode = json_string(a.replace_mode@);
    same_start(
        "{\"schema_version\":"@,
        decimal(a.schema_version as int) + behind_version(a),
        decimal(b.schema_version as int) + behind_version(b),
    );
    numbers_end_where_no_digit_follows(
        a.schema_version as int,
        b.schema_version as int,
        behind_version(a),
        behind_version(b),
    );
    same_start(",\"idempotency_key\":"@, key + from_x(a), key + from_x(b));
    same_start(key, from_x(a), from_x(b));
    same_start(
        ",\"anchor\":{\"x\":"@,
        decimal(a.anchor.x as int) + behind_x(a),
        decimal(b.anchor.x as int) + behind_x(b),
    );
    numbers_end_where_no_digit_follows(
        a.anchor.x as int,
        b.anchor.x as int,
        behind_x(a),
        behind_x(b),
    );
    same_start(
        ",\"y\":"@,
        decimal(a.anchor.y as int) + behind_y(a),
        decimal(b.anchor.y as int) + behind_y(b),
    );
    numbers_end_where_no_digit_follows(
        a.anchor.y as int,
        b.anchor.y as int,
        behind_y(a),
        behind_y(b),
    );
    same_start(
        ",\"z\":"@,
        decimal(a.anchor.z as int) + behind_z(a),
        decimal(b.anchor.z as int) + behind_z(b),
    );
    numbers_end_where_no_digit_follows(
        a.anchor.z as int,
        b.anchor.z as int,
        behind_z(a),
        behind_z(b),
    );
    same_start(
        "},\"replace_mode\":"@,
        mode + (",\"operations\":["@ + from_operations(a)),
        mode + (",\"operations\":["@ + from_operations(b)),
    );
    same_start(
        mode,
        ",\"operations\":["@ + from_operations(a),
        ",\"operations\":["@ + from_operations(b),
    );
    same_start(",\"operations\":["@, from_operations(a), from_operations(b));
    lists_are_read_back(
        a.operations@,
        b.operations@,
        a.operations@.len(),
        "]}"@,
        "]}"@,
    );
}

// ---- bytes ----

/// The value of a hexadecimal digit in lower case.
pub open spec fn digit_value(c: char) -> int {
    if '0' <= c <= '9' {
        c as int - '0' as int
    } else if 'a' <= c <= 'f' {
        c as int - 'a' as int + 10
    } else {
        -1
    }
}

/// Each byte is written as two hexadecimal digits in lower case, the high one first.
pub proof fn bytes_are_written_as_two_digits(bytes: Seq<u8>, i: int)
    requires
        0 <= i < bytes.len(),
    ensures
        hex(bytes).len() == 2 * bytes.len(),
        0 <= digit_value(hex(bytes)[2 * i]) < 16,
        0 <= digit_value(hex(bytes)[2 * i + 1]) < 16,
        16 * digit_value(hex(bytes)[2 * i]) + digit_value(hex(bytes)[2 * i + 1]) == bytes[i],
{
    let high = bytes[i] as int / 16;
    let low = bytes[i] as int % 16;
    assert((2 * i) / 2 == i && (2 * i + 1) / 2 == i);
    assert(hex(bytes)[2 * i] == hex_digit(high));
    assert(hex(bytes)[2 * i + 1] == hex_digit(low));
    digits_have_their_value(high);
    digits_have_their_value(low);
}

proof fn digits_have_their_value(n: int)
    requires
        0 <= n < 16,
    ensures
        digit_value(hex_digit(n)) == n,
{
    if n < 10 {
        assert(hex_digit(n) as int == n + 48);
    } else {
        assert(hex_digit(n) as int == n + 87);
    }
}

} // verus!
