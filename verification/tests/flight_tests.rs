use menu_designer::flight::Category;
use menu_designer::flight::Flights;

#[test]
fn begin_hands_out_fresh_tokens_per_category() {
    let mut f = Flights::new();
    let t1 = f.begin(Category::Load);
    let t2 = f.begin(Category::Load);
    assert_ne!(t1, t2);
    assert!(!f.is_live(Category::Load, t1));
    assert!(f.is_live(Category::Load, t2));
}

#[test]
fn categories_are_independent() {
    let mut f = Flights::new();
    let load = f.begin(Category::Load);
    let delete = f.begin(Category::Delete);
    let reparent = f.begin(Category::Reparent);
    assert!(f.is_live(Category::Load, load));
    assert!(f.is_live(Category::Delete, delete));
    assert!(f.is_live(Category::Reparent, reparent));
    // a new delete supersedes only the delete
    let delete2 = f.begin(Category::Delete);
    assert!(!f.is_live(Category::Delete, delete));
    assert!(f.is_live(Category::Delete, delete2));
    assert!(f.is_live(Category::Load, load));
    assert!(f.is_live(Category::Reparent, reparent));
}

#[test]
fn unbegun_token_is_not_live() {
    let f = Flights::new();
    assert!(!f.is_live(Category::Update, 1));
    assert!(!f.is_live(Category::Create, 1));
}
