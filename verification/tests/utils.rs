use chamber::utils::char_arr_to_string;
use chamber::utils::char_vec_to_string;
use chamber::utils::str_to_char_vec;
use chamber::utils::string_to_char_vec;

#[test]
fn a_string_gives_its_characters() {
    assert_eq!(string_to_char_vec(&String::from("a啊b")), vec!['a', '啊', 'b']);
    assert_eq!(string_to_char_vec(&String::new()), Vec::<char>::new());
    assert_eq!(str_to_char_vec("hi"), vec!['h', 'i']);
}

#[test]
fn characters_give_their_string() {
    assert_eq!(char_vec_to_string(&vec!['a', '啊', 'b']), "a啊b");
    assert_eq!(char_vec_to_string(&Vec::new()), "");
    assert_eq!(char_arr_to_string(&['x', 'y']), "xy");
    assert_eq!(char_arr_to_string(&[]), "");
}

#[test]
fn a_slice_of_the_characters_gives_that_part() {
    let chars = string_to_char_vec(&String::from("啊a十"));
    assert_eq!(char_arr_to_string(&chars[0..2]), "啊a");
    assert_eq!(char_arr_to_string(&chars[2..]), "十");
}

#[test]
fn there_and_back_is_the_same_string() {
    for text in ["", "hello", "Ｈｅｌｌｏ, ｗｏｒｌｄ!", "a,b\n"] {
        let owned = String::from(text);
        assert_eq!(char_vec_to_string(&string_to_char_vec(&owned)), owned);
    }
}
