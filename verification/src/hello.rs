use vstd::prelude::*;

verus! {

/// The greeting page body for a name.
pub open spec fn greeting_html(name: Seq<char>) -> Seq<char> {
    "<h1>Hello "@ + name + "</h1>"@
}

/// The greeting for the query form of the route, where the name parameter is
/// optional and absent means `World`.
pub fn hello_query_greeting(name: &Option<String>) -> (r: String)
    ensures
        name matches Some(n) ==> r@ == greeting_html(n@),
        name is None ==> r@ == greeting_html("World"@),
{
    let mut r = "<h1>Hello ".to_owned();
    match name {
        Some(n) => r.append(n.as_str()),
        None => r.append("World"),
    }
    r.append("</h1>");
    proof {
        match name {
            Some(n) => assert(r@ =~= greeting_html(n@)),
            None => assert(r@ =~= greeting_html("World"@)),
        }
    }
    r
}

/// The greeting for the path form of the route, where the name is a path
/// segment.
pub fn hello_path_greeting(name: &String) -> (r: String)
    ensures
        r@ == greeting_html(name@),
{
    let mut r = "<h1>Hello ".to_owned();
    r.append(name.as_str());
    r.append("</h1>");
    proof {
        assert(r@ =~= greeting_html(name@));
    }
    r
}

} // verus!
