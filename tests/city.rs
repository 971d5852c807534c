use ticket_to_ride::card::TrainColor;
use ticket_to_ride::city::City;
use ticket_to_ride::train_color;

#[test]
fn city_count() {
    assert_eq!(City::COUNT, 36);
}

#[test]
fn simple_city_to_string() {
    assert_eq!(City::Atlanta.to_string(), "Atlanta");
    assert_eq!(City::Raleigh.to_string(), "Raleigh");
}

#[test]
fn complex_city_to_string() {
    assert_eq!(City::ElPaso.to_string(), "El Paso");
    assert_eq!(City::KansasCity.to_string(), "Kansas City");
    assert_eq!(City::LasVegas.to_string(), "Las Vegas");
    assert_eq!(City::LittleRock.to_string(), "Little Rock");
    assert_eq!(City::LosAngeles.to_string(), "Los Angeles");
    assert_eq!(City::Montreal.to_string(), "Montréal");
    assert_eq!(City::NewOrleans.to_string(), "New Orleans");
    assert_eq!(City::NewYork.to_string(), "New York");
    assert_eq!(City::OklahomaCity.to_string(), "Oklahoma City");
    assert_eq!(City::SaintLouis.to_string(), "Saint Louis");
    assert_eq!(City::SaltLakeCity.to_string(), "Salt Lake City");
    assert_eq!(City::SanFrancisco.to_string(), "San Francisco");
    assert_eq!(City::SantaFe.to_string(), "Santa Fe");
    assert_eq!(City::SaultStMarie.to_string(), "Sault St. Marie");
}

#[test]
fn city_index_round_trip() {
    for i in 0..City::COUNT {
        assert_eq!(City::from_index(i).index(), i);
    }
    assert_eq!(City::Duluth.index(), 7);
    assert_eq!(City::Montreal.index(), 16);
    assert_eq!(City::from_index(15), City::Miami);
    assert_eq!(City::from_index(22), City::Phoenix);
}

#[test]
fn card_train_color_to_string() {
    assert_eq!(TrainColor::Orange.to_string(), "orange");
    assert_eq!(TrainColor::Pink.to_string(), "pink");
}

#[test]
fn train_color_train_color_to_string() {
    assert_eq!(train_color::TrainColor::Orange.to_string(), "orange");
    assert_eq!(train_color::TrainColor::Pink.to_string(), "pink");
}

#[test]
fn train_color_is_wild() {
    assert!(!TrainColor::Black.is_wild());
    assert!(TrainColor::Wild.is_wild());
    assert!(TrainColor::Black.is_not_wild());
    assert!(!TrainColor::Wild.is_not_wild());
}
