use shove::ft::{Error, Ft, RageErr, Type};
use shove::rm::{Dotfile, EmptyDir, File, NonEmptyDir, Rm, Symlink};
use shove::sys::Request;

const TYPES: [Type; 5] =
    [Type::Dotlink, Type::Symlink, Type::EmptyDir, Type::File, Type::NonemptyDir];

fn ft(ty: Type) -> Ft {
    Ft { path: "/home/u/.vimrc".to_string(), ty }
}

#[test]
fn each_type_has_its_minimum() {
    assert_eq!(Type::Dotlink.rage(), 0);
    assert_eq!(Type::Symlink.rage(), 1);
    assert_eq!(Type::EmptyDir.rage(), 2);
    assert_eq!(Type::File.rage(), 2);
    assert_eq!(Type::NonemptyDir.rage(), 3);
}

#[test]
fn removal_is_granted_from_the_minimum_upwards() {
    for ty in TYPES {
        let min = ty.rage();
        for rage in [min, min + 1, min + 10, usize::MAX] {
            assert!(ft(ty).rm(rage).is_ok(), "{:?} at {}", ty, rage);
        }
    }
}

#[test]
fn removal_is_refused_below_the_minimum() {
    for ty in TYPES {
        let min = ty.rage();
        for rage in 0..min {
            match ft(ty).rm(rage) {
                Err(Error::Rage(e)) => assert_eq!(e, RageErr::new(ty, rage, min)),
                other => panic!("{:?} at {}: {:?}", ty, rage, other),
            }
        }
    }
}

#[test]
fn each_type_is_removed_in_its_own_way() {
    assert!(matches!(ft(Type::Dotlink).rm(0), Ok(Request::RemoveFile(p)) if p == "/home/u/.vimrc"));
    assert!(matches!(ft(Type::Symlink).rm(1), Ok(Request::RemoveFile(p)) if p == "/home/u/.vimrc"));
    assert!(matches!(ft(Type::File).rm(2), Ok(Request::RemoveFile(p)) if p == "/home/u/.vimrc"));
    assert!(matches!(ft(Type::EmptyDir).rm(2), Ok(Request::RemoveDir(p)) if p == "/home/u/.vimrc"));
    assert!(
        matches!(ft(Type::NonemptyDir).rm(3), Ok(Request::RemoveDirAll(p)) if p == "/home/u/.vimrc")
    );
}

#[test]
fn check_rage_compares_the_two_levels() {
    let f = ft(Type::File);
    assert_eq!(f.check_rage(2, 2), Ok(()));
    assert_eq!(f.check_rage(3, 2), Ok(()));
    assert_eq!(f.check_rage(1, 2), Err(RageErr { ty: Type::File, lvl: 1, min: 2 }));
    assert_eq!(f.check_rage(0, 1), Err(RageErr { ty: Type::File, lvl: 0, min: 1 }));
}

#[test]
fn refusals_read_well() {
    assert_eq!(
        RageErr::new(Type::NonemptyDir, 1, 3).message(),
        "unable to remove non-empty dir, rage level 1 is less than minimum 3"
    );
    assert_eq!(
        Error::Rage(RageErr::new(Type::Symlink, 0, 1)).message(),
        "unable to remove symlink, rage level 0 is less than minimum 1"
    );
    assert_eq!(Error::Io("permission denied".to_string()).message(), "permission denied");
    assert_eq!(Type::Dotlink.name(), "dotfile");
    assert_eq!(Type::EmptyDir.name(), "empty dir");
    assert_eq!(Type::File.name(), "file");
}

#[test]
fn removers_know_their_rage() {
    let p = || "/d/x".to_string();
    assert_eq!(Dotfile(p()).rage(), 0);
    assert_eq!(Symlink(p()).rage(), 1);
    assert_eq!(EmptyDir(p()).rage(), 2);
    assert_eq!(File(p()).rage(), 2);
    assert_eq!(NonEmptyDir(p()).rage(), 3);
    assert_eq!(File(p()).path(), "/d/x");
    assert_eq!(NonEmptyDir(p()).ft(), "non-empty directory");
}

#[test]
fn removers_give_way_to_rage_only() {
    let p = || "/d/x".to_string();
    assert!(matches!(Dotfile(p()).rm(0), Ok(Request::RemoveFile(q)) if q == "/d/x"));
    assert!(matches!(Symlink(p()).rm(1), Ok(Request::RemoveFile(q)) if q == "/d/x"));
    assert!(matches!(EmptyDir(p()).rm(2), Ok(Request::RemoveDir(q)) if q == "/d/x"));
    assert!(matches!(File(p()).rm(5), Ok(Request::RemoveFile(q)) if q == "/d/x"));
    assert!(matches!(NonEmptyDir(p()).rm(3), Ok(Request::RemoveDirAll(q)) if q == "/d/x"));
    match NonEmptyDir(p()).rm(2) {
        Err(shove::rm::Error::Rage(e)) => {
            assert_eq!(e.ft, "non-empty directory");
            assert_eq!(e.rage, 2);
            assert_eq!(e.req, 3);
            assert_eq!(
                e.message(),
                "unable to remove non-empty directory, rage level less than 3: 2"
            );
        }
        other => panic!("{:?}", other),
    }
    assert!(matches!(Symlink(p()).rm(0), Err(shove::rm::Error::Rage(_))));
    assert_eq!(
        shove::rm::Error::Io("busy".to_string()).message(),
        "io error: busy"
    );
}
