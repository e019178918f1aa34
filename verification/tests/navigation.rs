use aurora_ui::navigation::{button_sides, Breadcrumb, Carousel, CarouselHit, CarouselPress, PageHit, Pagination};

#[test]
fn pages_window_follows_current() {
    let p = Pagination::new().total_pages(10).current_page(1);
    assert_eq!(p.compute_displayed_pages(), vec![1, 2, 3, 4, 5]);
    let p = Pagination::new().total_pages(10).current_page(5);
    assert_eq!(p.compute_displayed_pages(), vec![3, 4, 5, 6, 7]);
    let p = Pagination::new().total_pages(10).current_page(10);
    assert_eq!(p.compute_displayed_pages(), vec![6, 7, 8, 9, 10]);
    let p = Pagination::new().total_pages(3).current_page(2);
    assert_eq!(p.compute_displayed_pages(), vec![1, 2, 3]);
}

#[test]
fn pages_window_edge_with_few_pages() {
    let p = Pagination::new().total_pages(5).visible_pages(7).current_page(5);
    assert_eq!(p.compute_displayed_pages(), vec![0, 1, 2, 3, 4, 5]);
    let p = Pagination::new().visible_pages(0).total_pages(0).current_page(0);
    assert_eq!((p.visible_pages, p.total_pages, p.current_page), (1, 1, 1));
    assert_eq!(p.compute_displayed_pages(), vec![1]);
}

#[test]
fn page_presses() {
    let mut p = Pagination::new().total_pages(10).current_page(1);
    p.refresh();
    assert_eq!(p.press(PageHit::Prev), None);
    assert_eq!(p.press(PageHit::Page(3)), Some(4));
    assert_eq!(p.current_page, 4);
    assert_eq!(p.press(PageHit::Next), Some(5));
    assert_eq!(p.press(PageHit::Prev), Some(4));
    assert_eq!(p.press(PageHit::Nothing), None);
    let mut last = Pagination::new().total_pages(2).current_page(2);
    assert_eq!(last.press(PageHit::Next), None);
    assert_eq!(last.current_page, 2);
}

#[test]
fn carousel_wraps_both_ways() {
    let mut c = Carousel::new().slide().slide().slide();
    assert_eq!(c.prev(), Some(2));
    assert_eq!(c.direction, -1);
    assert_eq!(c.slide_from, 0);
    assert_eq!(c.next(), Some(0));
    assert_eq!(c.next(), Some(1));
    assert_eq!(c.direction, 1);
    assert_eq!(c.go_to(1), None);
    assert_eq!(c.go_to(7), None);
    assert_eq!(c.go_to(0), Some(0));
    assert_eq!(c.direction, -1);
    let mut empty = Carousel::new();
    assert_eq!(empty.next(), None);
    assert_eq!(empty.prev(), None);
}

#[test]
fn carousel_presses() {
    let mut c = Carousel::new().slide().slide();
    assert_eq!(c.press(CarouselHit::NextArrow), CarouselPress::Handled(Some(1)));
    assert_eq!(c.press(CarouselHit::Dot(1)), CarouselPress::Handled(None));
    assert_eq!(c.press(CarouselHit::Dot(0)), CarouselPress::Handled(Some(0)));
    assert_eq!(c.press(CarouselHit::Slide), CarouselPress::ToSlide);
    let mut hidden = Carousel::new().slide().slide().show_arrows(false).show_indicators(false);
    assert_eq!(hidden.press(CarouselHit::PrevArrow), CarouselPress::ToSlide);
    assert_eq!(hidden.press(CarouselHit::Dot(1)), CarouselPress::ToSlide);
    assert_eq!(hidden.current, 0);
    let mut single = Carousel::new().slide();
    assert_eq!(single.press(CarouselHit::NextArrow), CarouselPress::ToSlide);
}

#[test]
fn breadcrumb_links_all_but_last() {
    let b = Breadcrumb::new().item("Home".to_string()).item("Docs".to_string()).item("Page".to_string());
    assert_eq!(b.separator, "/");
    assert_eq!(b.item_pressed(0), Some(0));
    assert_eq!(b.item_pressed(1), Some(1));
    assert_eq!(b.item_pressed(2), None);
    assert_eq!(Breadcrumb::new().item_pressed(0), None);
}

#[test]
fn button_group_rounding() {
    assert_eq!(button_sides(0, 1), (true, true));
    assert_eq!(button_sides(0, 3), (true, false));
    assert_eq!(button_sides(1, 3), (false, false));
    assert_eq!(button_sides(2, 3), (false, true));
}
