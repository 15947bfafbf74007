use flexpart_gpu::config::ConfigError;
use flexpart_gpu::input_files::{
    outgrid_assignment_map, outgrid_problem, release_assignment_maps, release_name,
    release_problem, species_assignment_map, species_name, split_lines, OutgridProblem,
    ReleaseProblem,
};
use flexpart_gpu::namelist::ConfigMap;

fn chars(s: &str) -> Vec<char> {
    s.chars().collect()
}

fn text(v: &[char]) -> String {
    v.iter().collect()
}

fn value(map: &ConfigMap, key: &str) -> Option<String> {
    map.get(key).cloned()
}

#[test]
fn lines_follow_str_lines() {
    let input = "a\r\nb\n\nc\r";
    let lines = split_lines(&chars(input));
    let got: Vec<String> = lines.iter().map(|l| text(l)).collect();
    let expected: Vec<String> = input.lines().map(str::to_string).collect();
    assert_eq!(got, expected);
    assert_eq!(got, vec!["a", "b", "", "c\r"]);
    assert!(split_lines(&chars("")).is_empty());
    assert_eq!(split_lines(&chars("x\n")).len(), 1);
}

#[test]
fn release_block_yields_one_entry() {
    let input = r#"
        &RELEASE
          NAME='stack',
          START='20240101120000',
          END='20240101150000',
          LON=7.25,
          LAT=46.1,
          PARTICLES=1000
        /
    "#;
    let maps = release_assignment_maps(input, "<inline>").expect("release block");
    assert_eq!(maps.len(), 1);
    assert_eq!(value(&maps[0], "name").as_deref(), Some("stack"));
    assert_eq!(value(&maps[0], "lon").as_deref(), Some("7.25"));
    assert_eq!(value(&maps[0], "particles").as_deref(), Some("1000"));
    assert_eq!(release_name(&maps[0], 1), "stack");
}

#[test]
fn releases_without_sections_are_read_line_by_line() {
    let input = "name=a, lon=1 ! first\n\n# comment only\nname=b, lon=2\n";
    let maps = release_assignment_maps(input, "r.txt").expect("line entries");
    assert_eq!(maps.len(), 2);
    assert_eq!(value(&maps[0], "name").as_deref(), Some("a"));
    assert_eq!(value(&maps[1], "lon").as_deref(), Some("2"));
}

#[test]
fn malformed_release_line_names_its_line_number() {
    let input = "name=a\n\nbroken\n";
    match release_assignment_maps(input, "r.txt") {
        Err(ConfigError::Parse { context, message }) => {
            assert_eq!(context, "RELEASES (r.txt), line 3");
            assert_eq!(message, "expected `=` after key `broken`");
        }
        other => panic!("unexpected {other:?}"),
    }
}

#[test]
fn empty_releases_file_is_refused() {
    match release_assignment_maps("! nothing here\n\n", "r.txt") {
        Err(ConfigError::Parse { context, message }) => {
            assert_eq!(context, "RELEASES (r.txt)");
            assert_eq!(message, "no release entries found");
        }
        other => panic!("unexpected {other:?}"),
    }
}

#[test]
fn unterminated_release_section_is_refused() {
    match release_assignment_maps("&RELEASE name='x'\n", "r.txt") {
        Err(ConfigError::Parse { message, .. }) => {
            assert_eq!(message, "section `&RELEASE` is missing a terminating `/`");
        }
        other => panic!("unexpected {other:?}"),
    }
}

#[test]
fn unnamed_release_gets_its_ordinal() {
    let maps = release_assignment_maps("lon=1\nlon=2\n", "r").expect("entries");
    assert_eq!(release_name(&maps[1], 2), "release_2");
    assert_eq!(release_name(&maps[0], 12), "release_12");
}

#[test]
fn release_checks_come_in_order() {
    assert_eq!(
        release_problem("20240102000000", "20240101000000", false, false, false, false, 0),
        Some(ReleaseProblem::StartAfterEnd)
    );
    assert_eq!(
        release_problem("20240101000000", "20240101000000", false, true, true, true, 1),
        Some(ReleaseProblem::LonOutOfRange)
    );
    assert_eq!(
        release_problem("a", "b", true, false, true, true, 1),
        Some(ReleaseProblem::LatOutOfRange)
    );
    assert_eq!(
        release_problem("a", "b", true, true, false, true, 1),
        Some(ReleaseProblem::TopBelowBottom)
    );
    assert_eq!(
        release_problem("a", "b", true, true, true, false, 1),
        Some(ReleaseProblem::MassNotPositive)
    );
    assert_eq!(
        release_problem("a", "b", true, true, true, true, 0),
        Some(ReleaseProblem::NoParticles)
    );
    assert_eq!(release_problem("a", "b", true, true, true, true, 5), None);
}

#[test]
fn outgrid_reads_section_or_plain_text() {
    let section = "&OUTGRID\n lon_min=-10, lon_max=10, nx=20 /\n";
    let map = outgrid_assignment_map(section, "o").expect("section");
    assert_eq!(value(&map, "lon_min").as_deref(), Some("-10"));
    assert_eq!(value(&map, "nx").as_deref(), Some("20"));
    let plain = "lon_min=-10 ! west\nny=5\n";
    let map = outgrid_assignment_map(plain, "o").expect("plain");
    assert_eq!(value(&map, "lon_min").as_deref(), Some("-10"));
    assert_eq!(value(&map, "ny").as_deref(), Some("5"));
    match outgrid_assignment_map("nx\n", "grid.txt") {
        Err(ConfigError::Parse { context, .. }) => assert_eq!(context, "OUTGRID (grid.txt)"),
        other => panic!("unexpected {other:?}"),
    }
}

#[test]
fn outgrid_checks_come_in_order() {
    assert_eq!(
        outgrid_problem(false, false, false, false, 0, 0, 0, false),
        Some(OutgridProblem::LonNotIncreasing)
    );
    assert_eq!(
        outgrid_problem(true, false, true, true, 1, 1, 1, true),
        Some(OutgridProblem::LatNotIncreasing)
    );
    assert_eq!(
        outgrid_problem(true, true, false, true, 1, 1, 1, true),
        Some(OutgridProblem::LonOutOfRange)
    );
    assert_eq!(
        outgrid_problem(true, true, true, false, 1, 1, 1, true),
        Some(OutgridProblem::LatOutOfRange)
    );
    assert_eq!(
        outgrid_problem(true, true, true, true, 1, 0, 1, false),
        Some(OutgridProblem::EmptyDimension)
    );
    assert_eq!(
        outgrid_problem(true, true, true, true, 1, 1, 1, false),
        Some(OutgridProblem::ResolutionNotPositive)
    );
    assert_eq!(outgrid_problem(true, true, true, true, 1, 1, 1, true), None);
}

#[test]
fn species_params_section_is_preferred() {
    let file = "&SPECIES\nPSPECIES='OLD'\n/\n&SPECIES_PARAMS\nPSPECIES=\"AIRTRACER\",PDECAY=-9.9,/\n";
    let map = species_assignment_map(file, "SPECIES (s)").expect("species params");
    assert_eq!(value(&map, "pspecies").as_deref(), Some("AIRTRACER"));
    assert_eq!(value(&map, "pdecay").as_deref(), Some("-9.9"));
    let legacy = species_assignment_map("&SPECIES\nPSPECIES='OLD'\n/\n", "c").expect("legacy");
    assert_eq!(value(&legacy, "pspecies").as_deref(), Some("OLD"));
    let plain = species_assignment_map("name = Xe133\n", "c").expect("plain");
    assert_eq!(value(&plain, "name").as_deref(), Some("Xe133"));
}

#[test]
fn species_name_falls_back_to_file_stem() {
    let named = species_assignment_map("pspecies = ' CS137 '\n", "c").expect("map");
    assert_eq!(species_name(&named, Some("SPECIES_001"), "c").unwrap(), "CS137");
    let unnamed = species_assignment_map("pdecay=1\n", "c").expect("map");
    assert_eq!(species_name(&unnamed, Some("SPECIES_024"), "c").unwrap(), "SPECIES_024");
    match species_name(&unnamed, Some("  "), "SPECIES (x)") {
        Err(ConfigError::MissingKey { context, key }) => {
            assert_eq!(context, "SPECIES (x)");
            assert_eq!(key, "name");
        }
        other => panic!("unexpected {other:?}"),
    }
    assert!(species_name(&unnamed, None, "c").is_err());
}
