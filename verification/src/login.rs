//! The login form page: the HTML served on a GET of the login route,
//! with an optional flash error message rendered above the form.

use vstd::prelude::*;
use vstd::string::StringExecFns;

verus! {

/// The fragment shown above the form: empty without a flash message, the
/// message wrapped in an emphasized paragraph with one.
pub open spec fn spec_error_html(flash_error: Option<Seq<char>>) -> Seq<char> {
    match flash_error {
        None => Seq::<char>::empty(),
        Some(m) => "<p><i>"@ + m + "</i></p>"@,
    }
}

/// The whole login page for an optional flash error message.
pub open spec fn spec_login_page(flash_error: Option<Seq<char>>) -> Seq<char> {
    "<!DOCTYPE html>\n<html lang=\"en\">\n<head>\n    <meta http-equiv=\"content-type\" content=\"text/html; charset=utf-8\">\n    <title>Login</title>\n</head>\n<body>\n    "@
        + spec_error_html(flash_error)
        + "\n<form action=\"/login\" method=\"post\">\n    <label>Username\n        <input type=\"text\" placeholder=\"Enter Username\" name=\"username\">\n    </label><label>Password\n        <input type=\"password\" placeholder=\"Enter Password\" name=\"password\">\n    </label>\n    <button type=\"submit\">Login</button>\n</form>\n</body>\n</html>"@
}

/// Render the login page, with the flash error message (the value of the
/// flash cookie, if the request carried one) shown above the form.
pub fn login_page_html(flash_error: Option<&String>) -> (r: String)
    ensures
        r@ == spec_login_page(
            match flash_error {
                Some(m) => Some(m@),
                None => None,
            },
        ),
{
    let mut r = String::from_str(
        "<!DOCTYPE html>\n<html lang=\"en\">\n<head>\n    <meta http-equiv=\"content-type\" content=\"text/html; charset=utf-8\">\n    <title>Login</title>\n</head>\n<body>\n    ",
    );
    match flash_error {
        Some(m) => {
            r.append("<p><i>");
            r.append(m.as_str());
            r.append("</i></p>");
        },
        None => {},
    }
    r.append(
        "\n<form action=\"/login\" method=\"post\">\n    <label>Username\n        <input type=\"text\" placeholder=\"Enter Username\" name=\"username\">\n    </label><label>Password\n        <input type=\"password\" placeholder=\"Enter Password\" name=\"password\">\n    </label>\n    <button type=\"submit\">Login</button>\n</form>\n</body>\n</html>",
    );
    proof {
        assert(r@ =~= spec_login_page(
            match flash_error {
                Some(m) => Some(m@),
                None => None,
            },
        ));
    }
    r
}

} // verus!
