use eorzea_bot::chest::{
    chest, chest_message, chest_page_url, get_items, session_cookie, ChestItem, ChestPageError, ChestStep,
};

#[test]
fn chest_numbers_one_to_five() {
    for n in 1..=5u64 {
        assert!(matches!(chest(n), ChestStep::FetchItems));
    }
    for n in [0u64, 6, 100, u64::MAX] {
        match chest(n) {
            ChestStep::Refuse(t) => assert_eq!(t, "Choose a number between 1 and 5"),
            ChestStep::FetchItems => panic!("{} is no chest", n),
        }
    }
}

#[test]
fn chest_answer() {
    let items = vec![
        ChestItem { item: "Potion".to_string(), amount: "12".to_string() },
        ChestItem { item: "Ether".to_string(), amount: "3".to_string() },
    ];
    assert_eq!(
        chest_message(2, &items),
        "Items in chest 2 are:\nPotion, amount: 12\nEther, amount: 3\n"
    );
    assert_eq!(chest_message(5, &vec![]), "Items in chest 5 are:\n");
}

#[test]
fn chest_address_and_cookie() {
    assert_eq!(
        chest_page_url("9229001536389012345", 3),
        "https://na.finalfantasyxiv.com/lodestone/freecompany/9229001536389012345/chest/3"
    );
    assert_eq!(session_cookie("abc123"), "ldst_sess=abc123");
}

const PAGE: &str = r#"<html><body>
<ul>
<li class="item-list__list">
  <div class="item-list__name"><a class="db-tooltip__item__name">Potion</a></div>
  <div class="item-list__number">12</div>
</li>
<li class="other item-list__list">
  <a class="db-tooltip__item__name">Hi-Ether</a>
  <span class="item-list__number">3</span>
</li>
</ul>
</body></html>"#;

#[test]
fn reads_items_of_chest_page() {
    let items = get_items(PAGE.to_string()).ok().unwrap();
    assert_eq!(items.len(), 2);
    assert_eq!(items[0].item, "Potion");
    assert_eq!(items[0].amount, "12");
    assert_eq!(items[1].item, "Hi-Ether");
    assert_eq!(items[1].amount, "3");
}

#[test]
fn page_without_items() {
    assert_eq!(get_items("<html><body><p>empty</p></body></html>".to_string()).ok().map(|v| v.len()), Some(0));
}

#[test]
fn item_without_amount_is_refused() {
    let page = r#"<div class="item-list__list"><a class="db-tooltip__item__name">Potion</a></div>"#;
    assert!(matches!(get_items(page.to_string()), Err(ChestPageError::MissingElement)));
}

#[test]
fn element_without_child_is_refused() {
    let page = r#"<div class="item-list__list"><a class="db-tooltip__item__name"></a><span class="item-list__number">1</span></div>"#;
    assert!(matches!(get_items(page.to_string()), Err(ChestPageError::MissingChild)));
}
