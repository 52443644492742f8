use velaris_lead_gen::clock::Timestamp;
use velaris_lead_gen::models::{Lead, SearchSession, WebStatus};
use velaris_lead_gen::session::{
    category_for_answer, merge_leads, non_empty_answer, parse_min_reviews, report_file_name,
    report_file_name_at, resume_or_start, resume_or_start_at, session_matches, CategoryChoice,
};

fn lead(url: &str, status: WebStatus, id: &str) -> Lead {
    Lead {
        id: id.to_string(),
        nombre: "N".to_string(),
        direccion: None,
        telefono: None,
        correo: None,
        categoria: "Cafés".to_string(),
        url_web: None,
        maps_url: url.to_string(),
        estado_web: status,
        resenas: 0,
        calificacion_decimas: 0,
        extraido_el: Timestamp { secs: 0, nanos: 0 },
    }
}

fn urls(leads: &[Lead]) -> Vec<String> {
    leads.iter().map(|l| l.maps_url.clone()).collect()
}

#[test]
fn merge_drops_duplicates_and_active_sites() {
    let mut all = vec![lead("a", WebStatus::SinWeb, "1"), lead("b", WebStatus::Timeout, "2")];
    let new = vec![
        lead("a", WebStatus::SinWeb, "3"),
        lead("c", WebStatus::Activa, "4"),
        lead("d", WebStatus::SinWeb, "5"),
        lead("d", WebStatus::SinWeb, "6"),
    ];
    let added = merge_leads(&mut all, &new);
    assert_eq!(urls(&all), vec!["a", "b", "d"]);
    assert_eq!(all[0].id, "1");
    assert_eq!(all[2].id, "5");
    assert_eq!(added, 1);
}

#[test]
fn merge_counts_no_gain_when_the_list_shrinks() {
    let mut all = vec![lead("a", WebStatus::Activa, "1"), lead("b", WebStatus::Activa, "2")];
    let added = merge_leads(&mut all, &vec![]);
    assert!(all.is_empty());
    assert_eq!(added, 0);
}

#[test]
fn first_lead_with_a_url_wins_even_when_dropped() {
    let mut all = vec![lead("a", WebStatus::Activa, "1")];
    let added = merge_leads(&mut all, &vec![lead("a", WebStatus::SinWeb, "2")]);
    assert!(all.is_empty());
    assert_eq!(added, 0);
}

#[test]
fn merging_the_same_run_twice_changes_nothing() {
    let mut all = vec![lead("a", WebStatus::SinWeb, "1")];
    let new = vec![lead("b", WebStatus::SinWeb, "2"), lead("c", WebStatus::Activa, "3")];
    merge_leads(&mut all, &new);
    let once = all.clone();
    let added = merge_leads(&mut all, &new);
    assert_eq!(all, once);
    assert_eq!(added, 0);
}

#[test]
fn saved_session_is_resumed_only_for_the_same_search() {
    let saved = SearchSession {
        zona: "Pereira".to_string(),
        categoria: "Bares".to_string(),
        ultima_actualizacion: Timestamp { secs: 10, nanos: 5 },
    };
    assert!(session_matches(&saved, "Pereira", "Bares"));
    assert!(!session_matches(&saved, "Pereira", "Cafés"));
    let leads = vec![lead("a", WebStatus::SinWeb, "1")];
    let (s, l, resumed) = resume_or_start_at(Some((saved.clone(), leads.clone())), "Pereira", "Bares", Timestamp { secs: 99, nanos: 1 });
    assert!(resumed);
    assert_eq!(s, saved);
    assert_eq!(l, leads);
    let (s, l, resumed) = resume_or_start_at(Some((saved.clone(), leads)), "Manizales", "Bares", Timestamp { secs: 99, nanos: 1 });
    assert!(!resumed);
    assert_eq!(s.zona, "Manizales");
    assert_eq!(s.categoria, "Bares");
    assert_eq!(s.ultima_actualizacion, Timestamp { secs: 99, nanos: 1 });
    assert!(l.is_empty());
    let (s, l, resumed) = resume_or_start(None, "Cali", "Hoteles");
    assert!(!resumed && l.is_empty());
    assert_eq!(s.zona, "Cali");
    assert!(s.ultima_actualizacion.secs > 1_600_000_000);
}

#[test]
fn menu_answers_select_categories() {
    let expected = [
        ("1", "Restaurantes"),
        ("2", "Cafés"),
        ("3", "Bares"),
        ("4", "Panaderías"),
        ("5", "Peluquerías"),
        ("6", "Clínicas"),
        ("7", "Talleres mecánicos"),
        ("8", "Farmacias"),
        ("9", "Hoteles"),
    ];
    for (answer, name) in expected {
        assert_eq!(category_for_answer(answer), CategoryChoice::Selected(name.to_string()));
    }
    assert_eq!(category_for_answer(" 3 \n"), CategoryChoice::Selected("Bares".to_string()));
    assert_eq!(category_for_answer("0"), CategoryChoice::AskCustom);
    assert_eq!(category_for_answer("10"), CategoryChoice::Invalid);
    assert_eq!(category_for_answer(""), CategoryChoice::Invalid);
    assert_eq!(category_for_answer("uno"), CategoryChoice::Invalid);
}

#[test]
fn empty_answers_are_refused() {
    assert_eq!(non_empty_answer("  Veterinarias \n"), Some("Veterinarias".to_string()));
    assert_eq!(non_empty_answer("   \n"), None);
    assert_eq!(non_empty_answer(""), None);
}

#[test]
fn minimum_reviews_answer() {
    assert_eq!(parse_min_reviews(""), Some(0));
    assert_eq!(parse_min_reviews("  \n"), Some(0));
    assert_eq!(parse_min_reviews("10"), Some(10));
    assert_eq!(parse_min_reviews(" 25\n"), Some(25));
    assert_eq!(parse_min_reviews("diez"), None);
    assert_eq!(parse_min_reviews("-3"), None);
    assert_eq!(parse_min_reviews("99999999999"), None);
}

#[test]
fn report_file_name_uses_the_city() {
    assert_eq!(
        report_file_name_at("Pereira, Risaralda", "20240131_0915"),
        "leads_pereira_20240131_0915.pdf"
    );
    assert_eq!(
        report_file_name_at("  Santa Rosa de Cabal ", "x"),
        "leads_santa_rosa_de_cabal_x.pdf"
    );
    assert_eq!(report_file_name_at("Bogotá D.C.", "s"), "leads_bogotá_d.c._s.pdf");
    let name = report_file_name("Cali, Valle");
    assert!(name.starts_with("leads_cali_") && name.ends_with(".pdf"));
    assert_eq!(name.len(), "leads_cali_".len() + 13 + 4);
    let stamp = &name["leads_cali_".len()..name.len() - 4];
    assert_eq!(&stamp[8..9], "_");
    assert!(stamp.chars().filter(|c| *c != '_').all(|c| c.is_ascii_digit()));
}
