use velaris_lead_gen::clock::Timestamp;
use velaris_lead_gen::models::{Lead, WebStatus};
use velaris_lead_gen::report::{append_rating, build_report_html, report_html};

fn lead(name: &str, phone: Option<&str>, web: Option<&str>, status: WebStatus, tenths: u32) -> Lead {
    Lead {
        id: "id".to_string(),
        nombre: name.to_string(),
        direccion: Some("Calle 1".to_string()),
        telefono: phone.map(|p| p.to_string()),
        correo: None,
        categoria: "Panaderías".to_string(),
        url_web: web.map(|w| w.to_string()),
        maps_url: format!("https://maps/{}", name),
        estado_web: status,
        resenas: 321,
        calificacion_decimas: tenths,
        extraido_el: Timestamp { secs: 0, nanos: 0 },
    }
}

fn rating(t: u32) -> String {
    let mut s = String::new();
    append_rating(&mut s, t);
    s
}

#[test]
fn ratings_are_written_like_floats() {
    assert_eq!(rating(45), "4.5");
    assert_eq!(rating(40), "4");
    assert_eq!(rating(0), "0");
    assert_eq!(rating(3), "0.3");
    assert_eq!(rating(50), "5");
    assert_eq!(rating(47), format!("{}", 4.7f32));
}

#[test]
fn report_lists_every_lead_with_its_badges() {
    let leads = vec![
        lead("Pan Dorado", Some("3001234567"), None, WebStatus::SinWeb, 45),
        lead(
            "Pan Rico",
            None,
            Some("https://www.facebook.com/panrico.oficial.pereira"),
            WebStatus::Timeout,
            40,
        ),
    ];
    let html = build_report_html(&leads, "31/01/2024 09:15");
    assert!(html.starts_with("<!DOCTYPE html>\n<html lang=\"es\">"));
    assert!(html.ends_with("</html>"));
    assert!(html.contains("<strong>Panaderías</strong> en <strong>Panaderías</strong><br>"));
    assert!(html.contains("Generado el 31/01/2024 09:15<br>"));
    assert!(html.contains("    2 leads calificados\n"));
    assert!(html.contains("<div class=\"val\">2</div><div class=\"label\">Leads Totales</div>"));
    assert!(html.contains("<div class=\"val\">1</div><div class=\"label\">Con Teléfono</div>"));
    assert!(html.contains("<div class=\"val\">1</div><div class=\"label\">Sin Sitio Web</div>"));
    assert!(html.contains("<div class=\"val\">1</div><div class=\"label\">Solo Redes Sociales</div>"));
    let row1 = "<tr>\n                <td class=\"name\">Pan Dorado</td>\n                <td><code>3001234567</code></td>\n                <td><span class=\"badge none\">Sin web</span></td>\n                <td class=\"small\">Calle 1</td>\n                <td>4.5 ★</td>\n                <td>321</td>\n                <td><span class=\"badge none\">Sin web</span></td>\n            </tr>";
    assert!(html.contains(row1));
    let row2 = "<tr>\n                <td class=\"name\">Pan Rico</td>\n                <td><code>—</code></td>\n                <td><span class=\"badge social\">Red Social<br><small>https://www.facebook.com/panrico.of</small></span></td>\n                <td class=\"small\">Calle 1</td>\n                <td>4 ★</td>\n                <td>321</td>\n                <td><span class=\"badge warn\">Timeout</span></td>\n            </tr>";
    assert!(html.contains(row2));
    assert!(html.contains(&format!("{}\n{}", row1, row2)));
}

#[test]
fn report_of_no_leads_uses_dashes() {
    let html = build_report_html(&vec![], "d");
    assert!(html.contains("<strong>—</strong> en <strong>—</strong><br>"));
    assert!(html.contains("<tbody>\n    \n  </tbody>"));
    assert!(html.contains("    0 leads calificados\n"));
}

#[test]
fn status_badges_follow_the_status() {
    let leads = vec![
        lead("a", None, None, WebStatus::Activa, 10),
        lead("b", None, None, WebStatus::ErrorServidor(500), 10),
        lead("c", None, None, WebStatus::Caida("x".to_string()), 10),
    ];
    let html = build_report_html(&leads, "d");
    assert!(html.contains("<span class=\"badge ok\">Activa</span>"));
    assert!(html.contains("<span class=\"badge warn\">Error servidor</span>"));
    assert!(html.contains("<span class=\"badge warn\">Caída</span>"));
}

#[test]
fn dated_report_has_a_generation_date() {
    let html = report_html(&vec![lead("a", None, None, WebStatus::SinWeb, 10)]);
    let start = html.find("Generado el ").unwrap() + "Generado el ".len();
    let date: String = html[start..].chars().take_while(|c| *c != '<').collect();
    assert_eq!(date.len(), "31/01/2024 09:15".len());
    assert_eq!(&date[2..3], "/");
}
