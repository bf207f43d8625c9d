//! Indices, levels and the two kinds of environment.

use bumpalo::Bump;
use pion::env::{AbsoluteVar, EnvLen, RelativeVar, SharedEnv, UniqueEnv};

#[test]
fn an_index_counts_from_the_top_and_a_level_from_the_bottom() {
    let len = EnvLen { len: 5 };
    assert_eq!(len.relative_to_absolute(RelativeVar { index: 0 }), Some(AbsoluteVar { level: 4 }));
    assert_eq!(len.relative_to_absolute(RelativeVar { index: 4 }), Some(AbsoluteVar { level: 0 }));
    assert_eq!(len.absolute_to_relative(AbsoluteVar { level: 1 }), Some(RelativeVar { index: 3 }));
}

#[test]
fn a_variable_that_the_environment_does_not_bind_has_no_other_form() {
    let len = EnvLen { len: 5 };
    assert_eq!(len.relative_to_absolute(RelativeVar { index: 5 }), None);
    assert_eq!(len.absolute_to_relative(AbsoluteVar { level: 5 }), None);
    assert_eq!(EnvLen::new().absolute_to_relative(AbsoluteVar { level: 0 }), None);
}

#[test]
fn index_and_level_are_inverse_to_each_other() {
    let len = EnvLen { len: 7 };
    for index in 0..7 {
        let level = len.relative_to_absolute(RelativeVar { index }).unwrap();
        assert_eq!(len.absolute_to_relative(level), Some(RelativeVar { index }));
    }
}

#[test]
fn the_next_level_is_the_length() {
    assert_eq!(EnvLen { len: 3 }.to_absolute(), AbsoluteVar { level: 3 });
    assert_eq!(EnvLen::new().to_absolute(), AbsoluteVar::new());
}

#[test]
fn the_successor_of_the_greatest_index_is_none() {
    assert_eq!(RelativeVar::new().checked_succ(), Some(RelativeVar { index: 1 }));
    assert_eq!(RelativeVar { index: usize::MAX }.checked_succ(), None);
    assert_eq!(RelativeVar { index: 4 }.succ(), RelativeVar { index: 5 });
}

#[test]
fn a_unique_env_is_a_stack() {
    let mut env = UniqueEnv::new();
    assert!(env.is_empty());
    env.push('a');
    env.push('b');
    env.push('c');
    assert_eq!(env.len(), EnvLen { len: 3 });
    assert_eq!(env.get_relative(RelativeVar { index: 0 }), Some(&'c'));
    assert_eq!(env.get_relative(RelativeVar { index: 2 }), Some(&'a'));
    assert_eq!(env.get_relative(RelativeVar { index: 3 }), None);
    assert_eq!(env.get_absolute(AbsoluteVar { level: 0 }), Some(&'a'));
    assert_eq!(env.get_absolute(AbsoluteVar { level: 3 }), None);
    assert_eq!(env.pop(), Some('c'));
    env.set_absolute(AbsoluteVar { level: 0 }, 'z');
    assert_eq!(env.elems, vec!['z', 'b']);
    env.truncate(EnvLen { len: 1 });
    assert_eq!(env.elems, vec!['z']);
    env.truncate(EnvLen { len: 4 });
    assert_eq!(env.elems, vec!['z']);
    assert_eq!(env.pop(), Some('z'));
    assert_eq!(env.pop(), None);
}

#[test]
fn a_snapshot_of_a_shared_env_stays_as_it_was() {
    let bump = Bump::new();
    let mut env = SharedEnv::new();
    env.push(&bump, 1);
    env.push(&bump, 2);
    let snapshot = env;
    env.push(&bump, 3);
    assert_eq!(env.len(), EnvLen { len: 3 });
    assert_eq!(snapshot.len(), EnvLen { len: 2 });
    assert_eq!(env.get_relative(RelativeVar { index: 0 }), Some(3));
    assert_eq!(snapshot.get_relative(RelativeVar { index: 0 }), Some(2));
    env.truncate(EnvLen { len: 1 });
    assert_eq!(env.get_relative(RelativeVar { index: 0 }), Some(1));
    assert_eq!(env.get_relative(RelativeVar { index: 1 }), None);
    assert_eq!(snapshot.get_relative(RelativeVar { index: 1 }), Some(1));
    assert_eq!(env.pop(), Some(1));
    assert_eq!(env.pop(), None);
    assert_eq!(snapshot.dropped(1).get_relative(RelativeVar { index: 0 }), Some(1));
}
