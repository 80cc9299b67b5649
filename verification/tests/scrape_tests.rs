use lcars::scrape::{leetx_search_rows, magnet_link, rutracker_search_rows};

const LEETX_PAGE: &str = r#"<html><body><table class="table-list"><tbody>
<tr><td class="coll-1 name"><a href="/sub/1/">i</a><a href="/torrent/1/Movie-2020/"> Movie 2020 1080p </a></td>
<td class="coll-2 seeds">120</td><td class="coll-3 leeches">7</td><td class="coll-4 size">1.5 GB<span>12</span></td></tr>
<tr><td class="coll-1 name"><a href="/sub/2/">i</a><a href="/torrent/2/x/">   </a></td>
<td class="coll-2 seeds">1</td><td class="coll-3 leeches">1</td><td class="coll-4 size">1 MB</td></tr>
<tr><td class="coll-1 name"><a href="/sub/3/">i</a><a href="/torrent/3/Show/">Show S01E01</a></td>
<td class="coll-2 seeds">n/a</td><td class="coll-3 leeches"> 4 </td></tr>
</tbody></table></body></html>"#;

#[test]
fn leetx_rows_read_from_page() {
    let rows = leetx_search_rows(LEETX_PAGE, "https://1337x.to");
    assert_eq!(rows.len(), 2);
    assert_eq!(rows[0].title, "Movie 2020 1080p");
    assert_eq!(rows[0].detail_url, "https://1337x.to/torrent/1/Movie-2020/");
    assert_eq!(rows[0].seeders, 120);
    assert_eq!(rows[0].leechers, 7);
    assert_eq!(rows[0].size_text, "1.5 GB12");
    assert_eq!(rows[1].title, "Show S01E01");
    assert_eq!(rows[1].seeders, 0);
    assert_eq!(rows[1].leechers, 4);
    assert_eq!(rows[1].size_text, "");
}

#[test]
fn leetx_page_without_results() {
    assert!(leetx_search_rows("<html><body>nothing</body></html>", "https://1337x.to").is_empty());
}

#[test]
fn magnet_link_is_first_magnet_href() {
    let page = r#"<a href="http://x">x</a><a href="magnet:?xt=urn:btih:ABC">m</a><a href="magnet:?xt=2">n</a>"#;
    assert_eq!(magnet_link(page), Some("magnet:?xt=urn:btih:ABC".to_string()));
    assert_eq!(magnet_link("<p>none</p>"), None);
}

const RUTRACKER_PAGE: &str = r#"<table id="tor-tbl"><tbody>
<tr><td class="t-title-col"><a class="tLink" href="viewtopic.php?t=1234567"> Artist - Album (2020) [FLAC] </a></td>
<td class="tor-size">1,5&nbsp;ГБ</td><td><b class="seedmed">42</b></td><td class="leechmed">3</td></tr>
<tr><td class="t-title-col"><a class="tLink" href="viewforum.php?f=1">No topic</a></td>
<td class="tor-size">1 MB</td><td class="seedmed">1</td><td class="leechmed">1</td></tr>
</tbody></table>"#;

#[test]
fn rutracker_rows_read_from_page() {
    let rows = rutracker_search_rows(RUTRACKER_PAGE);
    assert_eq!(rows.len(), 1);
    assert_eq!(rows[0].title, "Artist - Album (2020) [FLAC]");
    assert_eq!(rows[0].topic_id, "1234567");
    assert_eq!(rows[0].seeders, 42);
    assert_eq!(rows[0].leechers, 3);
    assert_eq!(rows[0].size_text, "1,5\u{a0}ГБ");
}
