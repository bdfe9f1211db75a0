use vstd::prelude::*;
use vstd::string::StringExecFns;

verus! {

/// The markup placed before the page body.
pub open spec fn page_head() -> Seq<char> {
    "\n<!DOCTYPE html>\n<html>\n    <head>\n        <meta charset=\"utf-8\">\n        <title>InfDyn Sense web server</title>\n    </head>\n    <body>\n        "@
}

/// The markup placed after the page body.
pub open spec fn page_tail() -> Seq<char> {
    "\n    </body>\n</html>\n"@
}

/// The greeting that the index page shows.
pub open spec fn greeting() -> Seq<char> {
    "Hello from Esp Spy Cam!"@
}

/// Wraps `content` into a complete HTML document.
pub fn templated(content: &str) -> (r: String)
    ensures
        r@ == page_head() + content@ + page_tail(),
{
    let mut page = String::from_str("\n<!DOCTYPE html>\n<html>\n    <head>\n        <meta charset=\"utf-8\">\n        <title>InfDyn Sense web server</title>\n    </head>\n    <body>\n        ");
    page.append(content);
    page.append("\n    </body>\n</html>\n");
    page
}

/// The page served at the root route.
pub fn index_html() -> (r: String)
    ensures
        r@ == page_head() + greeting() + page_tail(),
{
    templated("Hello from Esp Spy Cam!")
}

} // verus!
