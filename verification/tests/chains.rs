use coyoneda::morphism::Morphism;
use coyoneda::steps::Op;
use coyoneda::steps::Value;

#[test]
fn readme() {
    let mut f = Morphism::<Op>::new();
    for _ in 0..100000u64 {
        f = f.tail(Op::AddNum(42));
    }

    let mut g = Morphism::<Op>::new();
    for _ in 0..99999u64 {
        g = g.tail(Op::MapSubNum(42));
    }

    let g = g
        .tail(Op::PairWithStr(1000, String::from("welp")))
        .tail(Op::PairMapAddNum(42))
        .tail(Op::PairToTriple)
        .head(Op::WrapSome);

    let h = f.concat(g);

    assert_eq!(h.run(Value::Num(0)), Value::Triple(Some(1084), true, String::from("welp")));
    assert_eq!(h.run(Value::Num(1000)), Value::Triple(Some(2084), true, String::from("welp")));
}

#[test]
fn identity_returns_input() {
    let m = Morphism::<Op>::new();
    assert_eq!(m.run(Value::Num(42)), Value::Num(42));
    assert_eq!(m.run(Value::Str(String::from("welp"))), Value::Str(String::from("welp")));
}

#[test]
fn tail_applies_in_insertion_order() {
    let m = Morphism::<Op>::new()
        .tail(Op::PushSuffix(String::from("foo")))
        .tail(Op::PushSuffix(String::from("bar")));
    assert_eq!(m.run(Value::Str(String::from("x"))), Value::Str(String::from("xfoobar")));
}

#[test]
fn head_applies_in_reverse_insertion_order() {
    let m = Morphism::<Op>::new()
        .head(Op::PushSuffix(String::from("foo")))
        .head(Op::PushSuffix(String::from("bar")));
    assert_eq!(m.run(Value::Str(String::from("x"))), Value::Str(String::from("xbarfoo")));
}

#[test]
fn push_back_mutates_in_place() {
    let mut m = Morphism::<Op>::new();
    for i in 0..10u64 {
        m.push_back(Op::AddNum(i));
    }
    assert_eq!(m.run(Value::Num(0)), Value::Num(45));
}

#[test]
fn push_front_mutates_in_place() {
    let mut m = Morphism::<Op>::new();
    for _ in 0..3u64 {
        m.push_front(Op::PushSuffix(String::from("a")));
    }
    m.push_front(Op::IntToString);
    assert_eq!(m.run(Value::Int(5)), Value::Str(String::from("5aaa")));
}

#[test]
fn concat_runs_left_chain_first() {
    let f = Morphism::<Op>::new().tail(Op::AddNum(40)).tail(Op::WrapSome);
    let g = Morphism::<Op>::new().tail(Op::MapSubNum(1));
    let h = f.concat(g);
    assert_eq!(h.run(Value::Num(3)), Value::MaybeNum(Some(42)));
}

#[test]
fn concat_is_associative() {
    let make = || {
        let f = Morphism::<Op>::new().tail(Op::AddNum(1));
        let g = Morphism::<Op>::new().tail(Op::WrapSome);
        let h = Morphism::<Op>::new().tail(Op::MapSubNum(2)).tail(Op::PairWithStr(
            5,
            String::from("s"),
        ));
        (f, g, h)
    };
    let (f1, g1, h1) = make();
    let left = f1.concat(g1).concat(h1);
    let (f2, g2, h2) = make();
    let right = f2.concat(g2.concat(h2));
    for i in 0..5u64 {
        assert_eq!(left.run(Value::Num(i)), right.run(Value::Num(i)));
    }
    assert_eq!(left.run(Value::Num(3)), Value::Pair(Some(7), String::from("s")));
}

#[test]
fn deep_chain_runs_without_stack_overflow() {
    let mut f = Morphism::<Op>::new();
    for _ in 0..100000u64 {
        f = f.tail(Op::AddNum(42));
    }
    assert_eq!(f.run(Value::Num(0)), Value::Num(4200000));
}

#[test]
fn chain_is_reusable_across_runs() {
    let mut f = Morphism::<Op>::new();
    for _ in 0..10000u64 {
        f = f.tail(Op::AddNum(42));
    }
    let mut sum: u64 = 0;
    for i in 0..100u64 {
        let r = f.run(Value::Num(i));
        assert_eq!(r, Value::Num(42 * 10000 + i));
        match r {
            Value::Num(n) => sum += n,
            _ => unreachable!(),
        }
    }
    assert_eq!(sum, 42004950);
}

#[test]
fn decimal_rendering_is_exact() {
    let m = Morphism::<Op>::new().tail(Op::IntToString);
    assert_eq!(m.run(Value::Int(0)), Value::Str(String::from("0")));
    assert_eq!(m.run(Value::Int(9)), Value::Str(String::from("9")));
    assert_eq!(m.run(Value::Int(1084)), Value::Str(String::from("1084")));
    assert_eq!(m.run(Value::Int(-5)), Value::Str(String::from("-5")));
    assert_eq!(m.run(Value::Int(i32::MIN)), Value::Str(String::from("-2147483648")));
    assert_eq!(m.run(Value::Int(i32::MAX)), Value::Str(String::from("2147483647")));
}

#[test]
fn arithmetic_wraps_around() {
    let add = Morphism::<Op>::new().tail(Op::AddNum(1));
    assert_eq!(add.run(Value::Num(u64::MAX)), Value::Num(0));
    let add_int = Morphism::<Op>::new().tail(Op::AddInt(1));
    assert_eq!(add_int.run(Value::Int(i32::MAX)), Value::Int(i32::MIN));
    let sub = Morphism::<Op>::new().tail(Op::MapSubNum(1));
    assert_eq!(sub.run(Value::MaybeNum(Some(0))), Value::MaybeNum(Some(u64::MAX)));
}

#[test]
fn size_conversion_saturates() {
    let m = Morphism::<Op>::new().tail(Op::SizeToInt);
    assert_eq!(m.run(Value::Size(42)), Value::Int(42));
    assert_eq!(m.run(Value::Size(usize::MAX)), Value::Int(i32::MAX));
}

#[test]
fn unrecognised_shape_passes_through() {
    let m = Morphism::<Op>::new().tail(Op::AddNum(1)).tail(Op::PairToTriple);
    assert_eq!(m.run(Value::Str(String::from("42"))), Value::Str(String::from("42")));
}

#[test]
fn map_sub_skips_empty_option() {
    let m = Morphism::<Op>::new().tail(Op::MapSubNum(7));
    assert_eq!(m.run(Value::MaybeNum(None)), Value::MaybeNum(None));
    let p = Morphism::<Op>::new().tail(Op::PairWithStr(7, String::from("t"))).tail(
        Op::PairToTriple,
    );
    assert_eq!(
        p.run(Value::MaybeNum(None)),
        Value::Triple(None, false, String::from("t"))
    );
}
