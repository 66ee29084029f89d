//! Page templates: `{{key}}` placeholders filled in, and the result set in
//! the frame page under `{{title}}` and `{{content}}`.
use vstd::prelude::*;

verus! {

/// `s` with every occurrence of `pat` replaced by `rep`, scanning from the
/// left and never inside a replaced occurrence.
pub open spec fn replaced(s: Seq<char>, pat: Seq<char>, rep: Seq<char>) -> Seq<char>
    decreases s.len(),
{
    if pat.len() == 0 || s.len() < pat.len() {
        s
    } else if s.subrange(0, pat.len() as int) == pat {
        rep + replaced(s.subrange(pat.len() as int, s.len() as int), pat, rep)
    } else {
        seq![s[0]] + replaced(s.subrange(1, s.len() as int), pat, rep)
    }
}

/// The placeholder `{{key}}`.
pub open spec fn placeholder(key: Seq<char>) -> Seq<char> {
    seq!['{', '{'] + key + seq!['}', '}']
}

/// `template` with the placeholder of each argument's key replaced by its
/// value, one argument after another.
pub open spec fn filled(template: Seq<char>, arguments: Seq<(Seq<char>, Seq<char>)>) -> Seq<char>
    decreases arguments.len(),
{
    if arguments.len() == 0 {
        template
    } else {
        replaced(
            filled(template, arguments.drop_last()),
            placeholder(arguments.last().0),
            arguments.last().1,
        )
    }
}

/// The frame page with its title and content filled in.
pub open spec fn framed(frame: Seq<char>, title: Seq<char>, content: Seq<char>) -> Seq<char> {
    replaced(
        replaced(frame, placeholder(seq!['t', 'i', 't', 'l', 'e']), title),
        placeholder(seq!['c', 'o', 'n', 't', 'e', 'n', 't']),
        content,
    )
}

/// The arguments as plain values.
pub open spec fn arguments_view(arguments: Seq<(String, String)>) -> Seq<(Seq<char>, Seq<char>)> {
    arguments.map_values(|a: (String, String)| (a.0@, a.1@))
}

/// `s` with every occurrence of the non-empty `pat` replaced by `rep`.
pub fn replace_all(s: &str, pat: &str, rep: &str) -> (r: String)
    requires
        pat@.len() > 0,
    ensures
        r@ == replaced(s@, pat@, rep@),
{
    let n = s.unicode_len();
    let m = pat.unicode_len();
    let wanted = String::from_str(pat);
    let mut r = String::new();
    proof {
        assert(s@.subrange(0, n as int) =~= s@);
        assert(r@ + replaced(s@, pat@, rep@) =~= replaced(s@, pat@, rep@));
    }
    let mut i: usize = 0;
    while i < n
        invariant
            n == s@.len(),
            m == pat@.len(),
            m > 0,
            wanted@ == pat@,
            i <= n,
            r@ + replaced(s@.subrange(i as int, n as int), pat@, rep@) == replaced(
                s@,
                pat@,
                rep@,
            ),
        decreases n - i,
    {
        let ghost rest = s@.subrange(i as int, n as int);
        if m <= n - i {
            let window = String::from_str(s.substring_char(i, i + m));
            if window == wanted {
                proof {
                    assert(rest.subrange(0, m as int) =~= window@);
                    assert(rest.subrange(m as int, rest.len() as int) =~= s@.subrange(
                        i + m,
                        n as int,
                    ));
                    assert(r@ + rep@ + replaced(s@.subrange(i + m, n as int), pat@, rep@) =~= r@
                        + replaced(rest, pat@, rep@));
                }
                r.append(rep);
                i = i + m;
                continue;
            }
            proof {
                assert(rest.subrange(0, m as int) =~= window@);
            }
        }
        proof {
            assert(rest.subrange(1, rest.len() as int) =~= s@.subrange(i + 1, n as int));
            assert(r@ + seq![rest[0]] + replaced(s@.subrange(i + 1, n as int), pat@, rep@)
                =~= r@ + replaced(rest, pat@, rep@));
        }
        r.append(s.substring_char(i, i + 1));
        proof {
            assert(s@.subrange(i as int, i + 1) =~= seq![rest[0]]);
        }
        i = i + 1;
    }
    proof {
        assert(r@ =~= r@ + replaced(s@.subrange(i as int, n as int), pat@, rep@));
    }
    r
}

/// The placeholder `{{key}}` as a string.
fn placeholder_string(key: &str) -> (r: String)
    ensures
        r@ == placeholder(key@),
{
    let mut r = String::from_str("{{");
    r.append(key);
    r.append("}}");
    proof {
        reveal_strlit("{{");
        reveal_strlit("}}");
        assert(r@ =~= placeholder(key@));
    }
    r
}

/// The text of the template named `name` among `templates`, each a pair of
/// a name and a text; the first of that name wins.
pub fn get_template<'a>(templates: &'a Vec<(String, String)>, name: &str) -> (r: Option<&'a str>)
    ensures
        r is None <==> forall|i: int|
            0 <= i < templates@.len() ==> (#[trigger] templates@[i]).0@ != name@,
        r matches Some(t) ==> exists|i: int|
            0 <= i < templates@.len() && (#[trigger] templates@[i]).0@ == name@ && (forall|
                j: int,
            | 0 <= j < i ==> (#[trigger] templates@[j]).0@ != name@) && t@ == templates@[i].1@,
{
    let wanted = String::from_str(name);
    let mut i: usize = 0;
    while i < templates.len()
        invariant
            i <= templates@.len(),
            wanted@ == name@,
            forall|j: int| 0 <= j < i ==> (#[trigger] templates@[j]).0@ != name@,
        decreases templates@.len() - i,
    {
        if templates[i].0 == wanted {
            return Some(templates[i].1.as_str());
        }
        i = i + 1;
    }
    None
}

/// The page for `template` with `arguments` filled in, set in `frame` under
/// `title`.
pub fn parse_template(
    frame: &str,
    template: &str,
    title: &str,
    arguments: &Vec<(String, String)>,
) -> (r: String)
    ensures
        r@ == framed(frame@, title@, filled(template@, arguments_view(arguments@))),
{
    let mut tmpl = String::from_str(template);
    let mut i: usize = 0;
    while i < arguments.len()
        invariant
            i <= arguments@.len(),
            tmpl@ == filled(template@, arguments_view(arguments@.subrange(0, i as int))),
        decreases arguments@.len() - i,
    {
        let key = placeholder_string(arguments[i].0.as_str());
        proof {
            let args = arguments_view(arguments@.subrange(0, i + 1));
            assert(args.drop_last() =~= arguments_view(arguments@.subrange(0, i as int)));
        }
        tmpl = replace_all(tmpl.as_str(), key.as_str(), arguments[i].1.as_str());
        i = i + 1;
    }
    proof {
        assert(arguments@.subrange(0, i as int) =~= arguments@);
    }
    let title_key = placeholder_string("title");
    let content_key = placeholder_string("content");
    proof {
        reveal_strlit("title");
        reveal_strlit("content");
        assert(title_key@ =~= placeholder(seq!['t', 'i', 't', 'l', 'e']));
        assert(content_key@ =~= placeholder(seq!['c', 'o', 'n', 't', 'e', 'n', 't']));
    }
    let titled = replace_all(frame, title_key.as_str(), title);
    replace_all(titled.as_str(), content_key.as_str(), tmpl.as_str())
}

} // verus!
