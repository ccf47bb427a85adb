use tensara::init::generate_starter_code;
use tensara::listing::{
    list_fields, parameter_attributes_text, problem_page, problem_row, problem_starters,
    slug_column_width, sort_field, sort_problems, SortField, Tone,
};
use tensara::trpc::{Problem, ProblemDetails, ProblemParameter};

fn problem(slug: &str, title: &str, difficulty: Option<&str>, author: Option<&str>) -> Problem {
    Problem {
        id: format!("id-{}", slug),
        slug: slug.to_string(),
        title: title.to_string(),
        difficulty: difficulty.map(|d| d.to_string()),
        author: author.map(|a| a.to_string()),
        tags: None,
    }
}

fn slugs(problems: &[Problem]) -> Vec<&str> {
    problems.iter().map(|p| p.slug.as_str()).collect()
}

fn parameter(name: &str, ty: &str, pointer: Option<&str>, constant: Option<&str>) -> ProblemParameter {
    ProblemParameter {
        name: name.to_string(),
        ty: ty.to_string(),
        const_: None,
        pointer: pointer.map(|p| p.to_string()),
        constant: constant.map(|c| c.to_string()),
    }
}

#[test]
fn sort_fields_by_name() {
    assert_eq!(sort_field("slug"), Some(SortField::Slug));
    assert_eq!(sort_field("title"), Some(SortField::Title));
    assert_eq!(sort_field("difficulty"), Some(SortField::Difficulty));
    assert_eq!(sort_field("author"), Some(SortField::Author));
    assert_eq!(sort_field("tags"), None);
}

#[test]
fn sorting_by_slug_orders_bytes() {
    let problems = vec![
        problem("relu", "ReLU", None, None),
        problem("Zeta", "Z", None, None),
        problem("conv-1d", "Conv", None, None),
        problem("conv", "Conv", None, None),
        problem("émoji", "E", None, None),
    ];
    let sorted = sort_problems(problems, SortField::Slug);
    assert_eq!(slugs(&sorted), vec!["Zeta", "conv", "conv-1d", "relu", "émoji"]);
}

#[test]
fn sorting_puts_missing_values_first_and_is_stable() {
    let problems = vec![
        problem("a", "A", Some("MEDIUM"), Some("x")),
        problem("b", "B", None, Some("y")),
        problem("c", "C", Some("EASY"), None),
        problem("d", "D", Some("MEDIUM"), Some("x")),
        problem("e", "E", None, None),
    ];
    let sorted = sort_problems(problems.clone(), SortField::Difficulty);
    assert_eq!(slugs(&sorted), vec!["b", "e", "c", "a", "d"]);
    let by_author = sort_problems(problems, SortField::Author);
    assert_eq!(slugs(&by_author), vec!["c", "e", "a", "d", "b"]);
}

#[test]
fn sorting_matches_the_standard_stable_sort() {
    let titles = ["b", "a", "b", "", "ab", "a", "ba", "b"];
    let problems: Vec<Problem> = titles
        .iter()
        .enumerate()
        .map(|(i, t)| problem(&format!("p{}", i), t, None, None))
        .collect();
    let mut expected = problems.clone();
    expected.sort_by(|x, y| x.title.cmp(&y.title));
    let sorted = sort_problems(problems, SortField::Title);
    assert_eq!(slugs(&sorted), slugs(&expected));
}

#[test]
fn list_fields_default_to_slug_and_title() {
    assert_eq!(list_fields(None), vec!["slug".to_string(), "title".to_string()]);
    assert_eq!(list_fields(Some(vec!["tags".to_string()])), vec!["tags".to_string()]);
}

#[test]
fn slug_column_is_two_wider_than_the_longest_slug() {
    let problems = vec![problem("ab", "", None, None), problem("éé", "", None, None)];
    assert_eq!(slug_column_width(&problems), 6);
    assert_eq!(slug_column_width(&vec![]), 2);
}

#[test]
fn rows_show_the_fields_asked_for() {
    let mut p = problem("gemm", "GEMM", Some("HARD"), Some("ana"));
    p.tags = Some(vec!["linear-algebra".to_string(), "matmul".to_string()]);
    let fields = vec!["difficulty".to_string(), "tags".to_string()];
    let row = problem_row(&p, &fields);
    assert_eq!(row.slug, "gemm");
    let tag = row.difficulty.expect("difficulty");
    assert_eq!(tag.text, "HARD");
    assert_eq!(tag.tone, Tone::Red);
    assert_eq!(tag.padding, 4);
    assert_eq!(row.author, None);
    assert_eq!(row.tags.as_deref(), Some("linear-algebra, matmul"));
    assert_eq!(row.link, "https://tensara.org/problems/gemm");

    let plain = problem_row(&problem("x", "X", Some("EXPERT"), None), &vec!["difficulty".to_string()]);
    let tag = plain.difficulty.expect("difficulty");
    assert_eq!(tag.tone, Tone::Plain);
    assert_eq!(tag.padding, 2);
    let easy = problem_row(&problem("y", "Y", Some("EASY"), Some("bo")), &list_fields(None));
    assert!(easy.difficulty.is_none());
    assert!(easy.author.is_none());
}

#[test]
fn parameter_attributes_list_type_and_flags() {
    assert_eq!(parameter_attributes_text(&parameter("x", "float", Some("true"), Some("true"))), "float, pointer, const");
    assert_eq!(parameter_attributes_text(&parameter("n", "size_t", Some("false"), None)), "size_t");
    assert_eq!(parameter_attributes_text(&parameter("k", "int", None, Some("true"))), "int, const");
}

fn details() -> ProblemDetails {
    ProblemDetails {
        id: "1".to_string(),
        slug: "relu".to_string(),
        title: "ReLU".to_string(),
        difficulty: Some("EASY".to_string()),
        author: None,
        tags: Some(vec![]),
        description: Some("  Apply ReLU.  \n".to_string()),
        definition: Some(
            "class P:\n    def reference_solution(self, x):\n        return x.relu()\n\n    def other(self):\n        pass\n"
                .to_string(),
        ),
        parameters: Some(vec![parameter("input", "float", Some("true"), Some("true"))]),
    }
}

#[test]
fn problem_page_shows_every_section() {
    let page = problem_page(&details(), false, false);
    assert_eq!(page.title, "ReLU");
    assert_eq!(page.difficulty.as_deref(), Some("EASY"));
    assert_eq!(page.tags, None);
    assert_eq!(page.description, Some(Some("Apply ReLU.".to_string())));
    assert_eq!(page.parameters, vec![("input".to_string(), "float, pointer, const".to_string())]);
    assert_eq!(
        page.reference,
        Some(Some("def reference_solution(self, x):\n        return x.relu()".to_string()))
    );
}

#[test]
fn problem_page_sections_can_be_left_out() {
    let reference_only = problem_page(&details(), true, false);
    assert_eq!(reference_only.description, None);
    assert!(reference_only.parameters.is_empty());
    assert!(reference_only.reference.is_some());
    let description_only = problem_page(&details(), false, true);
    assert_eq!(description_only.reference, None);
    assert_eq!(description_only.parameters.len(), 1);

    let mut bare = details();
    bare.description = Some("   ".to_string());
    bare.definition = Some("def solve():\n    pass\n".to_string());
    let page = problem_page(&bare, false, false);
    assert_eq!(page.description, Some(None));
    assert_eq!(page.reference, Some(None));
}

#[test]
fn starters_cover_each_supported_language() {
    let params = || vec![parameter("input", "float", Some("true"), Some("true")), parameter("n", "size_t", None, None)];
    let starters = problem_starters(&Some(params()));
    let languages: Vec<&str> = starters.iter().map(|(l, _)| l.as_str()).collect();
    assert_eq!(languages, vec!["cuda", "python", "mojo", "cute", "cutile"]);
    assert_eq!(starters[3].1, generate_starter_code(&params(), "cute", "float16"));
    assert_eq!(starters[4].1, generate_starter_code(&params(), "cutile", "float16"));
    assert_eq!(starters[0].1, generate_starter_code(&params(), "cuda", "float16"));
    assert_eq!(starters[2].1, generate_starter_code(&params(), "mojo", "float16"));
    let none = problem_starters(&None);
    assert_eq!(none[1].1, generate_starter_code(&[], "python", "float16"));
}
