use predicate::{OpUnit, OpUnitRcType, OpUnitTrait, Operation, Predicate, PredicateRet};
use std::ops::{BitAnd, BitOr};

enum NumType {
    Odd,
    Even,
    DivByThree,
    DivByFour,
    DivByFive,
    IsMagicNum(i32),
    More(Box<dyn Fn(&i32) -> bool>),
    Unit(OpUnitRcType<OpUnit<NumType>>),
}

impl NumType {
    fn join(self, rhs: NumType, op: Operation) -> NumType {
        let unit = OpUnit::new(
            Some(OpUnitRcType::new(self)),
            Some(OpUnitRcType::new(rhs)),
            op,
        );
        NumType::Unit(OpUnitRcType::new(unit))
    }
}

impl BitAnd for NumType {
    type Output = NumType;

    fn bitand(self, rhs: NumType) -> NumType {
        self.join(rhs, Operation::And)
    }
}

impl BitOr for NumType {
    type Output = NumType;

    fn bitor(self, rhs: NumType) -> NumType {
        self.join(rhs, Operation::Or)
    }
}

impl OpUnitTrait for NumType {
    fn get_op_unit(self: &OpUnitRcType<Self>) -> OpUnitRcType<OpUnit<Self>> {
        match self.as_ref() {
            NumType::Unit(unit) => unit.clone(),
            _ => OpUnitRcType::new(OpUnit::new(Some(self.clone()), None, Operation::Single)),
        }
    }
}

impl Predicate for NumType {
    type Item = i32;

    fn rules(&self, item: &Self::Item) -> bool {
        match self {
            NumType::Odd => item % 2 != 0,
            NumType::Even => item % 2 == 0,
            NumType::DivByThree => item % 3 == 0,
            NumType::DivByFour => item % 4 == 0,
            NumType::DivByFive => item % 5 == 0,
            NumType::IsMagicNum(num) => item == num,
            NumType::More(f) => f(item),
            _ => false,
        }
    }
}

fn sequence() -> Vec<i32> {
    vec![1, 2, 3, 4, 5, 6, 9, 12, 15, 16, 20, 22, 24]
}

fn odd_or_dozens_or_fives() -> NumType {
    NumType::Odd | NumType::Even & NumType::DivByThree & NumType::DivByFour | NumType::DivByFive
}

#[test]
fn filter_test() {
    let nums = vec![1, 2, 3, 4, 5, 6, 9, 12, 15, 16, 20, 22, 24, 1024];
    let test = NumType::Odd
        | NumType::Even & NumType::DivByThree & NumType::DivByFour
        | NumType::DivByFive;
    let result = nums
        .clone()
        .into_iter()
        .filter(test.wrap_ret().predicate_ref_one())
        .collect::<Vec<_>>();
    assert_eq!(vec![1, 3, 5, 9, 12, 15, 20, 24], result);

    let test = NumType::Odd & NumType::Even;
    let result = nums
        .clone()
        .into_iter()
        .filter(test.wrap_ret().predicate_ref_one())
        .collect::<Vec<_>>();
    assert!(result.is_empty());

    let test = NumType::Odd | NumType::Even;
    let result = nums
        .clone()
        .into_iter()
        .filter(test.wrap_ret().predicate_ref_one())
        .collect::<Vec<_>>();
    assert_eq!(result, nums);

    let test = NumType::DivByThree & NumType::Odd | NumType::DivByFive;
    let result = nums
        .clone()
        .iter()
        .filter(test.wrap_ret().predicate_ref_double())
        .map(|num| *num)
        .collect::<Vec<_>>();
    assert_eq!(vec![3, 5, 9, 15, 20], result);

    let test = NumType::More(Box::new(|i| i % 6 == 0));
    let ret = test.wrap_ret();
    let result = nums
        .clone()
        .into_iter()
        .filter(ret.predicate_ref_one())
        .collect::<Vec<_>>();
    assert_eq!(vec![6, 12, 24], result);
    assert!(ret.predicate_self()(36));

    let test = NumType::IsMagicNum(1024);
    assert!(test.wrap_ret().predicate_self()(1024));
}

#[test]
fn mixed_tree_keeps_odd_dozens_and_fives() {
    let keep = odd_or_dozens_or_fives().wrap_ret().predicate_ref_one();
    let kept: Vec<i32> = sequence().into_iter().filter(keep).collect();
    assert_eq!(kept, vec![1, 3, 5, 9, 12, 15, 20, 24]);
}

#[test]
fn odd_and_even_keeps_nothing() {
    let keep = (NumType::Odd & NumType::Even).wrap_ret().predicate_ref_one();
    let kept: Vec<i32> = sequence().into_iter().filter(keep).collect();
    assert_eq!(kept, Vec::<i32>::new());
}

#[test]
fn odd_or_even_keeps_everything() {
    let keep = (NumType::Odd | NumType::Even).wrap_ret().predicate_ref_one();
    let kept: Vec<i32> = sequence().into_iter().filter(keep).collect();
    assert_eq!(kept, sequence());
}

#[test]
fn odd_threes_or_fives() {
    let keep = (NumType::DivByThree & NumType::Odd | NumType::DivByFive)
        .wrap_ret()
        .predicate_ref_one();
    let kept: Vec<i32> = sequence().into_iter().filter(keep).collect();
    assert_eq!(kept, vec![3, 5, 9, 15, 20]);
}

#[test]
fn and_binds_tighter_than_or() {
    let grouped = NumType::Odd | (NumType::Even & NumType::DivByThree);
    let keep = grouped.wrap_ret().predicate_self();
    assert!(keep(1));
    assert!(!keep(2));
    assert!(keep(6));

    let regrouped = (NumType::Odd | NumType::Even) & NumType::DivByThree;
    let keep = regrouped.wrap_ret().predicate_self();
    assert!(!keep(1));
    assert!(!keep(2));
    assert!(keep(3));
    assert!(keep(6));
}

#[test]
fn one_closure_filters_twice_alike() {
    let keep = odd_or_dozens_or_fives().wrap_ret().predicate_ref_double();
    let nums = sequence();
    let first: Vec<i32> = nums.iter().filter(&keep).copied().collect();
    let second: Vec<i32> = nums.iter().filter(&keep).copied().collect();
    assert_eq!(first, vec![1, 3, 5, 9, 12, 15, 20, 24]);
    assert_eq!(first, second);
}

#[test]
fn one_tree_checks_twice_alike() {
    let root = OpUnitRcType::new(NumType::DivByThree & NumType::Odd | NumType::DivByFive);
    let unit = root.get_op_unit();
    for num in sequence() {
        let first = unit.check(&num);
        let second = unit.check(&num);
        assert_eq!(first, second);
        assert_eq!(first, (num % 3 == 0 && num % 2 != 0) || num % 5 == 0);
    }
}

#[test]
fn three_shapes_agree() {
    let ret = odd_or_dozens_or_fives().wrap_ret();
    let by_double_ref = ret.predicate_ref_double();
    let by_ref = ret.predicate_ref_one();
    let by_value = ret.predicate_self();
    let expected = [
        true, false, true, false, true, false, true, true, true, false, true, false, true,
    ];
    for (num, verdict) in sequence().into_iter().zip(expected) {
        assert_eq!(by_double_ref(&&num), verdict);
        assert_eq!(by_ref(&num), verdict);
        assert_eq!(by_value(num), verdict);
    }
}

#[test]
fn closures_of_one_adapter_do_not_interfere() {
    let ret = (NumType::Even & NumType::DivByFour).wrap_ret();
    let first = ret.predicate_self();
    let second = ret.predicate_self();
    assert!(first(8));
    assert!(second(8));
    assert!(!first(6));
    drop(first);
    assert!(!second(6));
    assert!(second(16));
    drop(ret);
    assert!(second(4));
    assert!(!second(2));
}

#[test]
fn closures_can_be_boxed_and_outlive_the_adapter() {
    let mut filters: Vec<Box<dyn Fn(&i32) -> bool>> = Vec::new();
    {
        let ret = (NumType::DivByThree | NumType::DivByFive).wrap_ret();
        filters.push(Box::new(ret.predicate_ref_one()));
        let ret = (NumType::DivByThree & NumType::DivByFive).wrap_ret();
        filters.push(Box::new(ret.predicate_ref_one()));
    }
    let kept: Vec<i32> = sequence().into_iter().filter(&filters[0]).collect();
    assert_eq!(kept, vec![3, 5, 6, 9, 12, 15, 20, 24]);
    let kept: Vec<i32> = sequence().into_iter().filter(&filters[1]).collect();
    assert_eq!(kept, vec![15]);
}

#[test]
fn atomic_rule_is_a_single_node() {
    let rule = OpUnitRcType::new(NumType::DivByFive);
    let unit = rule.get_op_unit();
    let (lhs, rhs) = unit.get_lhs_and_rhs();
    assert!(OpUnitRcType::ptr_eq(&lhs.unwrap(), &rule));
    assert!(rhs.is_none());
    assert!(unit.check(&10));
    assert!(!unit.check(&11));
}

#[test]
fn single_consults_its_operand_and_does_not_walk_it() {
    let combined = OpUnitRcType::new(NumType::Odd | NumType::Even);
    assert!(combined.get_op_unit().check(&3));
    let leaf = OpUnit::new(Some(combined), None, Operation::Single);
    assert!(!leaf.check(&3));
}

#[test]
fn magic_number_matches_itself_only() {
    let keep = NumType::IsMagicNum(1024).wrap_ret().predicate_ref_one();
    assert!(keep(&1024));
    assert!(!keep(&1023));
    let kept: Vec<i32> = sequence().into_iter().filter(keep).collect();
    assert!(kept.is_empty());
}

#[test]
fn fifty_rules_under_and() {
    let mut all = NumType::More(Box::new(|num| *num != 0));
    for bound in 1..50 {
        all = all & NumType::More(Box::new(move |num| *num != bound));
    }
    let keep = all.wrap_ret().predicate_self();
    assert!(keep(50));
    assert!(keep(-1));
    assert!(!keep(0));
    assert!(!keep(25));
    assert!(!keep(49));
}

#[test]
fn fifty_rules_under_or() {
    let mut any = NumType::IsMagicNum(0);
    for magic in 1..50 {
        any = NumType::IsMagicNum(magic) | any;
    }
    let keep = any.wrap_ret().predicate_self();
    assert!(keep(0));
    assert!(keep(49));
    assert!(keep(17));
    assert!(!keep(50));
}

#[test]
fn wrapping_keeps_the_root() {
    let root = OpUnitRcType::new(NumType::Odd);
    let ret = PredicateRet::new(root.clone());
    assert_eq!(OpUnitRcType::strong_count(&root), 2);
    let handle = ret.get_inner_by_clone();
    assert!(OpUnitRcType::ptr_eq(&handle, &root));
    assert_eq!(OpUnitRcType::strong_count(&root), 3);
    let keep = ret.predicate_self();
    assert_eq!(OpUnitRcType::strong_count(&root), 4);
    assert!(keep(7));
    drop(keep);
    drop(handle);
    drop(ret);
    assert_eq!(OpUnitRcType::strong_count(&root), 1);
}
