use core::cmp::Ordering;
use sherif::version::SemVersion;

#[test]
fn parse_exact_components() {
    let v = SemVersion::parse("1.2.3").unwrap();
    assert_eq!(v.major(), 1);
    assert_eq!(v.minor(), 2);
    assert_eq!(v.patch(), 3);
    assert_eq!(v.prerelease().as_str(), "");
    assert_eq!(v.rendered().as_str(), "1.2.3");
    assert!(v.is_valid());
}

#[test]
fn parse_prerelease() {
    let v = SemVersion::parse("5.0.0-next.4").unwrap();
    assert_eq!(v.major(), 5);
    assert_eq!(v.prerelease().as_str(), "next.4");
    assert_eq!(v.rendered().as_str(), "5.0.0-next.4");
}

#[test]
fn parse_range_components() {
    let v = SemVersion::parse("^1.2.3").unwrap();
    assert_eq!(v.major(), 1);
    assert_eq!(v.minor(), 2);
    assert_eq!(v.patch(), 3);
    assert_eq!(v.rendered().as_str(), "^1.2.3");
    assert!(v.is_valid());
}

#[test]
fn bare_range_renders_with_caret() {
    let v = SemVersion::parse(">=2.1").unwrap();
    assert_eq!(v.major(), 2);
    assert_eq!(v.minor(), 1);
    assert_eq!(v.patch(), 0);
    assert_eq!(v.rendered().as_str(), ">=2.1");
}

#[test]
fn wildcard_range_is_not_valid() {
    let v = SemVersion::parse("*").unwrap();
    assert!(!v.is_valid());
    assert_eq!(v.major(), 0);
    assert_eq!(v.minor(), 0);
    assert_eq!(v.patch(), 0);
}

#[test]
fn unreadable_version_is_an_error() {
    let r = SemVersion::parse("not a version");
    assert!(r.is_err());
    assert_eq!(r.unwrap_err().text, "not a version");
}

#[test]
fn parse_same_text_twice_agrees() {
    let a = SemVersion::parse("1.2.3-alpha.1").unwrap();
    let b = SemVersion::parse("1.2.3-alpha.1").unwrap();
    assert!(a.same(&b));
    assert_eq!(a.rendered().as_str(), b.rendered().as_str());
}

#[test]
fn compare_orders_components() {
    let low = SemVersion::parse("1.2.3").unwrap();
    let mid = SemVersion::parse("3.1.6").unwrap();
    let high = SemVersion::parse("5.6.3").unwrap();
    assert_eq!(low.cmp(&mid), Ordering::Less);
    assert_eq!(mid.cmp(&high), Ordering::Less);
    assert_eq!(low.cmp(&high), Ordering::Less);
    assert_eq!(high.cmp(&low), Ordering::Greater);
    assert_eq!(low.cmp(&low), Ordering::Equal);
}

#[test]
fn compare_is_antisymmetric_on_samples() {
    let texts = ["1.2.3", "4.5.6", "1.2.3-alpha", "1.2.3-beta", "^2.0.0", "~1.9.1"];
    for a in texts.iter() {
        for b in texts.iter() {
            let va = SemVersion::parse(a).unwrap();
            let vb = SemVersion::parse(b).unwrap();
            match va.cmp(&vb) {
                Ordering::Less => assert_eq!(vb.cmp(&va), Ordering::Greater),
                Ordering::Greater => assert_eq!(vb.cmp(&va), Ordering::Less),
                Ordering::Equal => assert_eq!(vb.cmp(&va), Ordering::Equal),
            }
        }
    }
}

#[test]
fn compare_is_transitive_on_samples() {
    let texts = ["1.0.0-alpha", "1.0.0", "1.0.1", "1.1.0", "2.0.0"];
    let versions: Vec<SemVersion> = texts
        .iter()
        .map(|t| SemVersion::parse(t).unwrap())
        .collect();
    for i in 0..versions.len() {
        for j in (i + 1)..versions.len() {
            assert_eq!(versions[i].cmp(&versions[j]), Ordering::Less);
        }
    }
}

#[test]
fn release_sorts_above_its_prereleases() {
    let release = SemVersion::parse("1.0.0").unwrap();
    let pre = SemVersion::parse("1.0.0-rc.1").unwrap();
    assert_eq!(release.cmp(&pre), Ordering::Greater);
    assert_eq!(pre.cmp(&release), Ordering::Less);
}
