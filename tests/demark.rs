use notes_reminder::markup::Demark;

#[test]
fn test_demark_sup() {
    let mut res1 = Demark::from("some content <sup>some sup</sup> some end");
    let mut res2 = Demark::from("some content <sup>some123</sup> some end");

    res1.demark_sup();
    assert_eq!(res1.content(), "some content ^(some sup) some end");
    res2.demark_sup();
    assert_eq!(res2.content(), "some content ^(some123) some end");
}

#[test]
fn test_demark_sub() {
    let mut res1 = Demark::from("some content <sub>some sub</sub> some end");
    let mut res2 = Demark::from("some content <sub>some123</sub> some end");

    res1.demark_sub();
    assert_eq!(res1.content(), "some content _(some sub) some end");
    res2.demark_sub();
    assert_eq!(res2.content(), "some content _(some123) some end");
}

#[test]
fn test_demark_bold() {
    let mut res1 = Demark::from("some content **some bold** some end");
    let mut res2 = Demark::from("some content **some123** some end");
    let mut res3 = Demark::from("**some123**");
    let mut res4 = Demark::from("some content **some123**");
    let mut res5 = Demark::from("**some123** some end");

    res1.demark_bold();
    assert_eq!(res1.content(), "some content <b>some bold</b> some end");
    res2.demark_bold();
    assert_eq!(res2.content(), "some content <b>some123</b> some end");
    res3.demark_bold();
    assert_eq!(res3.content(), "<b>some123</b>");
    res4.demark_bold();
    assert_eq!(res4.content(), "some content <b>some123</b>");
    res5.demark_bold();
    assert_eq!(res5.content(), "<b>some123</b> some end");
}

#[test]
fn test_demark_italic() {
    let mut res1 = Demark::from("some content *some italic* some end");
    let mut res2 = Demark::from("some content *some123* some end");
    let mut res3 = Demark::from("*some123*");
    let mut res4 = Demark::from("some content *some123*");
    let mut res5 = Demark::from("*some123* some end");
    let mut res6 = Demark::from("(*zero flag*)");
    let mut res7 = Demark::from("Комментарий @ava: *«kasdjfksj lasdj la asdklfjalsdk . asdfs: — asdjfks вы нам!»*.");

    res1.demark_italic();
    assert_eq!(res1.content(), "some content <i>some italic</i> some end");
    res2.demark_italic();
    assert_eq!(res2.content(), "some content <i>some123</i> some end");
    res3.demark_italic();
    assert_eq!(res3.content(), "<i>some123</i>");
    res4.demark_italic();
    assert_eq!(res4.content(), "some content <i>some123</i>");
    res5.demark_italic();
    assert_eq!(res5.content(), "<i>some123</i> some end");
    res6.demark_italic();
    assert_eq!(res6.content(), "(<i>zero flag</i>)");
    res7.demark_italic();
    assert_eq!(res7.content(), "Комментарий @ava: <i>«kasdjfksj lasdj la asdklfjalsdk . asdfs: — asdjfks вы нам!»</i>.");
}

#[test]
fn test_demark_code_block() {
    let mut res = Demark::from("``` { 'type': 'http', 'asgi': {'version': '3.0', spec_version: '2.4'}, 'http_version': '1.1', 'server': ('127.0.0.1' 5000), 'client': ('127.0.0.1', 50422), 'scheme': 'http', 'method': 'GET', 'root_path': '', 'path': '/some/path/', 'raw_path': b'/some/path/', 'query_string': b'q=123', 'headers': [ (b'host', b'127.0.0.1:5000'), (b'user-agent', b'curl/7.81.0'), (b'accept', b'*/*') ] 'state': {} } ```");

    res.demark_code_block();
    assert_eq!(res.content(), "<pre> { 'type': 'http', 'asgi': {'version': '3.0', spec_version: '2.4'}, 'http_version': '1.1', 'server': ('127.0.0.1' 5000), 'client': ('127.0.0.1', 50422), 'scheme': 'http', 'method': 'GET', 'root_path': '', 'path': '/some/path/', 'raw_path': b'/some/path/', 'query_string': b'q=123', 'headers': [ (b'host', b'127.0.0.1:5000'), (b'user-agent', b'curl/7.81.0'), (b'accept', b'*/*') ] 'state': {} } </pre>");
}

#[test]
fn test_demark_code_block_with_language() {
    let mut res = Demark::from("```python async def application(scope, receive: Callable, send: Callable): ```");

    res.demark_code_block();
    assert_eq!(res.content(), "<pre> async def application(scope, receive: Callable, send: Callable): </pre>");
}

#[test]
fn test_demark_link() {
    let mut res = Demark::from("[ссылка](https://www.radware.com/blog/applicationdelivery/wpo/2014/11/real-cost-slow-time-vs-downtime-slides/), [ссылка](https://blog.research.google/2009/06/speed-matters.html)");

    res.demark_link();
    assert_eq!(res.content(), "<a href='https://www.radware.com/blog/applicationdelivery/wpo/2014/11/real-cost-slow-time-vs-downtime-slides/'>ссылка</a>, <a href='https://blog.research.google/2009/06/speed-matters.html'>ссылка</a>");
}

#[test]
fn test_demark() {
    let mut res = Demark::from("Комментарий @ava: *«kasdjfksj lasdj la asdklfjalsdk . asdfs: — asdjfks вы нам!»*.");
    let res2 = Demark::from("aksdflsk sdkfja:
* **sdfsdf** (*dfsdf*) — asda
* **adfsdj** (*dfsjdk*) — asdas!");

    res.demark_italic();
    assert_eq!(res.content(), "Комментарий @ava: <i>«kasdjfksj lasdj la asdklfjalsdk . asdfs: — asdjfks вы нам!»</i>.");
    assert_eq!(res2.demark(), "aksdflsk sdkfja:\n* <b>sdfsdf</b> (<i>dfsdf</i>) — asda\n* <b>adfsdj</b> (<i>dfsjdk</i>) — asdas!");
}
